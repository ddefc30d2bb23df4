//! Scaffolding generation for frontend projects.
//!
//! From a base name and a template, the library derives the name forms a
//! template uses (case conversions, hook, context, provider and page
//! names), reads the template's manifest (variables, typed options, file
//! rules), decides which files are generated and under which names, and
//! builds the flat context each file is rendered with. Reading, rendering
//! and writing files is left to the caller.
//!
//! - [`text`], [`words`]: character sequences, std's character classes and
//!   case mappings, word splitting.
//! - [`case`], [`naming`], [`smart_naming`]: case conversions, derived
//!   names, sentinel substitution.
//! - [`var_map`], [`options`], [`manifest`]: the template manifest.
//! - [`condition`]: file-inclusion conditions.
//! - [`clock`], [`context`]: the render context and the run's stamp.
//! - [`plan`], [`architecture`]: which files a run generates.
//! - [`config`], [`cli`], [`listing`], [`describe`], [`types`],
//!   [`file_system`]: settings, requests, listings and descriptions.
//! - [`laws`]: properties relating several of the functions above.
use vstd::prelude::*;

pub mod text;
pub mod words;
pub mod case;
pub mod naming;
pub mod smart_naming;
pub mod var_map;
pub mod condition;
pub mod options;
pub mod manifest;
pub mod clock;
pub mod context;
pub mod plan;
pub mod laws;
pub mod types;
pub mod listing;
pub mod config;
pub mod architecture;
pub mod cli;
pub mod describe;
pub mod file_system;

verus! {

} // verus!
