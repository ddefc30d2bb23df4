//! The generation stamp: the time and identifier of one generation run,
//! read once and shared by every file of the run.
use vstd::prelude::*;
use chrono::Utc;
use uuid::Uuid;

verus! {

#[verifier::external_type_specification]
#[verifier::external_body]
pub struct ExUuid(Uuid);

/// Relies on `chrono::Utc::now`, rendered as plain text: RFC 3339, ISO
/// 8601 with milliseconds, date, time of day and year. Nothing is known of
/// the time read; the fixed patterns render without error.
#[verifier::external_body]
fn utc_now_fields() -> (r: (String, String, String, String, String)) {
    let t = Utc::now();
    (
        t.to_rfc3339(),
        t.format("%Y-%m-%dT%H:%M:%S%.3fZ").to_string(),
        t.format("%Y-%m-%d").to_string(),
        t.format("%H:%M:%S").to_string(),
        t.format("%Y").to_string(),
    )
}

/// Relies on `uuid::Uuid::new_v4`: a random identifier.
#[verifier::external_body]
fn new_uuid() -> (r: Uuid) {
    Uuid::new_v4()
}

/// Relies on uuid's `Display` of `Uuid`: the hyphenated form, 36
/// characters.
#[verifier::external_body]
fn uuid_hyphenated(u: &Uuid) -> (r: String)
    ensures
        r@.len() == 36,
{
    u.to_string()
}

/// Relies on `uuid::Uuid::simple`, rendered to a string: 32 hexadecimal
/// digits.
#[verifier::external_body]
fn uuid_simple(u: &Uuid) -> (r: String)
    ensures
        r@.len() == 32,
{
    u.simple().to_string()
}

/// The time and identifier fields of a render context. Disabled parts are
/// empty strings.
#[derive(Debug, Clone)]
pub struct GenerationStamp {
    pub timestamp: String,
    pub timestamp_iso: String,
    pub date: String,
    pub time: String,
    pub year: String,
    pub uuid: String,
    pub uuid_simple: String,
}

impl GenerationStamp {
    pub open spec fn time_empty(&self) -> bool {
        &&& self.timestamp@.len() == 0
        &&& self.timestamp_iso@.len() == 0
        &&& self.date@.len() == 0
        &&& self.time@.len() == 0
        &&& self.year@.len() == 0
    }

    pub open spec fn uuid_empty(&self) -> bool {
        self.uuid@.len() == 0 && self.uuid_simple@.len() == 0
    }

    /// A stamp with every field empty.
    pub fn empty() -> (r: Self)
        ensures
            r.time_empty(),
            r.uuid_empty(),
    {
        GenerationStamp {
            timestamp: String::new(),
            timestamp_iso: String::new(),
            date: String::new(),
            time: String::new(),
            year: String::new(),
            uuid: String::new(),
            uuid_simple: String::new(),
        }
    }

    /// Reads the clock and draws an identifier, each only where enabled.
    pub fn now(with_time: bool, with_uuid: bool) -> (r: Self)
        ensures
            !with_time ==> r.time_empty(),
            !with_uuid ==> r.uuid_empty(),
            with_uuid ==> r.uuid@.len() == 36 && r.uuid_simple@.len() == 32,
    {
        let mut s = GenerationStamp::empty();
        if with_time {
            let (timestamp, timestamp_iso, date, time, year) = utc_now_fields();
            s.timestamp = timestamp;
            s.timestamp_iso = timestamp_iso;
            s.date = date;
            s.time = time;
            s.year = year;
        }
        if with_uuid {
            let u = new_uuid();
            s.uuid = uuid_hyphenated(&u);
            s.uuid_simple = uuid_simple(&u);
        }
        s
    }
}

} // verus!
