//! The entry data model: the `TimeEntry` value object, its mathematical
//! model, and the codec between entries and the durable table's row format
//! (RFC 3339 strings for instants, a JSON array of strings for tags).

use vstd::prelude::*;

verus! {

/// Instants are counted in milliseconds since the Unix epoch.  The library
/// accepts the instants RFC 3339 itself can carry — the four-digit years
/// 0000 through 9999 — since the durable table and the wire both hold
/// instants as RFC 3339 strings.  This bound is 0000-01-01T00:00:00Z.
pub const TS_MIN_MS: i64 = -62_167_219_200_000;

/// Upper bound of the instant range: 9999-12-31T23:59:59.999Z.
pub const TS_MAX_MS: i64 = 253_402_300_799_999;

/// An instant the library can format as RFC 3339.
pub open spec fn ts_valid(ms: int) -> bool {
    TS_MIN_MS <= ms <= TS_MAX_MS
}

/// The mathematical model of one time-tracking entry.
pub ghost struct EntryModel {
    pub id: Seq<char>,
    pub activity: Seq<char>,
    pub elapsed: int,
    pub description: Option<Seq<char>>,
    pub tags: Seq<Seq<char>>,
    pub timestamp: int,
    pub last_modified: int,
    pub synced: bool,
    pub sync_id: Option<Seq<char>>,
    pub user_id: Option<Seq<char>>,
}

/// One persisted time-tracking record.
///
/// `id` is the merge key, assigned at creation and never reassigned.
/// `timestamp` is the moment the tracked activity occurred; `last_modified`
/// the moment of the latest local mutation.  `synced` is true once the
/// remote authority has acknowledged this exact version; `sync_id` is the
/// remote's opaque identifier for it.
#[derive(Debug, PartialEq, Eq)]
pub struct TimeEntry {
    pub id: String,
    pub activity: String,
    pub elapsed: i64,
    pub description: Option<String>,
    pub tags: Vec<String>,
    pub timestamp: i64,
    pub last_modified: i64,
    pub synced: bool,
    pub sync_id: Option<String>,
    pub user_id: Option<String>,
}

impl View for TimeEntry {
    type V = EntryModel;

    open spec fn view(&self) -> EntryModel {
        EntryModel {
            id: self.id@,
            activity: self.activity@,
            elapsed: self.elapsed as int,
            description: self.description.deep_view(),
            tags: self.tags.deep_view(),
            timestamp: self.timestamp as int,
            last_modified: self.last_modified as int,
            synced: self.synced,
            sync_id: self.sync_id.deep_view(),
            user_id: self.user_id.deep_view(),
        }
    }
}

impl DeepView for TimeEntry {
    type V = EntryModel;

    open spec fn deep_view(&self) -> EntryModel {
        self.view()
    }
}

/// A well-formed entry: non-empty activity label, non-negative duration,
/// and instants the library can format.
pub open spec fn wf_entry(m: EntryModel) -> bool {
    &&& m.activity.len() > 0
    &&& m.elapsed >= 0
    &&& ts_valid(m.timestamp)
    &&& ts_valid(m.last_modified)
}

impl Clone for TimeEntry {
    fn clone(&self) -> (r: Self)
        ensures
            r@ == self@,
    {
        let r = TimeEntry {
            id: self.id.clone(),
            activity: self.activity.clone(),
            elapsed: self.elapsed,
            description: match &self.description {
                Some(s) => Some(s.clone()),
                None => None,
            },
            tags: self.tags.clone(),
            timestamp: self.timestamp,
            last_modified: self.last_modified,
            synced: self.synced,
            sync_id: match &self.sync_id {
                Some(s) => Some(s.clone()),
                None => None,
            },
            user_id: match &self.user_id {
                Some(s) => Some(s.clone()),
                None => None,
            },
        };
        proof {
            assert(r.tags.deep_view() =~= self.tags.deep_view());
        }
        r
    }
}

/// What chrono prints for an instant: its RFC 3339 form.
pub uninterp spec fn rfc3339_of(ms: int) -> Seq<char>;

/// What chrono reads out of an RFC 3339 string: the instant it denotes, in
/// milliseconds since the epoch, or nothing when the string does not parse.
pub uninterp spec fn rfc3339_millis(s: Seq<char>) -> Option<int>;

/// What serde_json prints for a list of tags: a JSON array of strings.
pub uninterp spec fn tags_json_of(tags: Seq<Seq<char>>) -> Seq<char>;

/// What serde_json reads out of a string: the list of tags it encodes, or
/// nothing when the string is not a JSON array of strings.
pub uninterp spec fn tags_of_json(s: Seq<char>) -> Option<Seq<Seq<char>>>;

/// Relies on `uuid::Uuid::new_v4` and its `Display` impl: a fresh random
/// identifier in the hyphenated form, which is always 36 characters.
/// Nothing is assumed about which identifier comes back.
#[verifier::external_body]
fn fresh_uuid() -> (r: String)
    ensures
        r@.len() == 36,
{
    uuid::Uuid::new_v4().to_string()
}

/// Relies on `chrono::Utc::now`: the current wall-clock instant.  Nothing
/// is assumed about the value; callers clamp it into the library's range.
#[verifier::external_body]
fn now_millis_raw() -> i64 {
    chrono::Utc::now().timestamp_millis()
}

/// Relies on `chrono::DateTime::from_timestamp_millis`, which is defined on
/// the whole `ts_valid` range, and `DateTime::<Utc>::to_rfc3339`, which for
/// a four-digit year prints a plain RFC 3339 string (offset `+00:00`,
/// fraction in millisecond groups) that chrono's strict
/// `parse_from_rfc3339` reads back to the same millisecond.  Outside this
/// range chrono would write a signed five-digit year the parser refuses,
/// so `ts_valid` admits the four-digit years only.
#[verifier::external_body]
fn format_rfc3339(ms: i64) -> (r: String)
    requires
        ts_valid(ms as int),
    ensures
        r@ == rfc3339_of(ms as int),
        rfc3339_millis(r@) == Some(ms as int),
{
    chrono::DateTime::from_timestamp_millis(ms).unwrap().to_rfc3339()
}

/// Relies on `chrono::DateTime::parse_from_rfc3339`: the instant an
/// RFC 3339 string denotes, in milliseconds, or nothing when it is
/// malformed.  The result depends on the string alone.
#[verifier::external_body]
pub(crate) fn parse_rfc3339(s: &str) -> (r: Option<i64>)
    ensures
        match r {
            Some(ms) => rfc3339_millis(s@) == Some(ms as int),
            None => rfc3339_millis(s@) is None,
        },
{
    match chrono::DateTime::parse_from_rfc3339(s) {
        Ok(dt) => Some(dt.timestamp_millis()),
        Err(_) => None,
    }
}

/// Relies on `serde_json::to_string` for a vector of strings: it cannot
/// fail for this type, and `serde_json::from_str` reads the printed text
/// back to an equal vector.
#[verifier::external_body]
fn tags_to_json(tags: &Vec<String>) -> (r: String)
    ensures
        r@ == tags_json_of(tags.deep_view()),
        tags_of_json(r@) == Some(tags.deep_view()),
{
    serde_json::to_string(tags).unwrap()
}

/// Relies on `serde_json::from_str` for a vector of strings: the list a
/// JSON text encodes, or nothing when it is not such a list.  The result
/// depends on the text alone.
#[verifier::external_body]
fn tags_from_json(s: &str) -> (r: Option<Vec<String>>)
    ensures
        match r {
            Some(v) => tags_of_json(s@) == Some(v.deep_view()),
            None => tags_of_json(s@) is None,
        },
{
    serde_json::from_str::<Vec<String>>(s).ok()
}

/// The nearest instant inside the library's range.
pub open spec fn clamp_ms(ms: int) -> int {
    if ms < TS_MIN_MS as int {
        TS_MIN_MS as int
    } else if ms > TS_MAX_MS as int {
        TS_MAX_MS as int
    } else {
        ms
    }
}

/// Brings an instant into the library's range, leaving in-range values as
/// they are.
pub fn clamp_ts(ms: i64) -> (r: i64)
    ensures
        r as int == clamp_ms(ms as int),
        ts_valid(r as int),
{
    if ms < TS_MIN_MS {
        TS_MIN_MS
    } else if ms > TS_MAX_MS {
        TS_MAX_MS
    } else {
        ms
    }
}

/// The current wall-clock instant, clamped into the library's range.
pub fn now_millis() -> (r: i64)
    ensures
        ts_valid(r as int),
{
    clamp_ts(now_millis_raw())
}

/// One row of the durable table, in its persisted column types: instants
/// as RFC 3339 strings, tags as a JSON array, `synced` as an integer.
pub struct EntryRow {
    pub id: String,
    pub activity: String,
    pub elapsed: i64,
    pub description: Option<String>,
    pub timestamp: String,
    pub tags: String,
    pub last_modified: String,
    pub synced: i64,
    pub sync_id: Option<String>,
    pub user_id: Option<String>,
}

impl TimeEntry {
    /// A fresh entry for a user action: fresh id, both instants "now",
    /// not yet synced.
    pub fn new(
        activity: String,
        elapsed: i64,
        description: Option<String>,
        tags: Vec<String>,
    ) -> (r: Self)
        requires
            activity@.len() > 0,
            elapsed >= 0,
        ensures
            r@.id.len() == 36,
            r@.activity == activity@,
            r@.elapsed == elapsed as int,
            r@.description == description.deep_view(),
            r@.tags == tags.deep_view(),
            r@.timestamp == r@.last_modified,
            r@.synced == false,
            r@.sync_id is None,
            r@.user_id is None,
            wf_entry(r@),
    {
        let now: i64 = now_millis();
        TimeEntry {
            id: fresh_uuid(),
            activity,
            elapsed,
            description,
            tags,
            timestamp: now,
            last_modified: now,
            synced: false,
            sync_id: None,
            user_id: None,
        }
    }

    /// The entry in the durable table's column types.  Out-of-range
    /// instants are clamped; for well-formed entries both instants are
    /// already in range and pass through unchanged.
    pub fn to_params(&self) -> (r: EntryRow)
        ensures
            r.id@ == self@.id,
            r.activity@ == self@.activity,
            r.elapsed as int == self@.elapsed,
            r.description.deep_view() == self@.description,
            r.timestamp@ == rfc3339_of(clamp_ms(self@.timestamp)),
            r.tags@ == tags_json_of(self@.tags),
            r.last_modified@ == rfc3339_of(clamp_ms(self@.last_modified)),
            r.synced == (if self@.synced { 1int } else { 0int }),
            r.sync_id.deep_view() == self@.sync_id,
            r.user_id.deep_view() == self@.user_id,
            rfc3339_millis(r.timestamp@) == Some(clamp_ms(self@.timestamp)),
            rfc3339_millis(r.last_modified@) == Some(clamp_ms(self@.last_modified)),
            tags_of_json(r.tags@) == Some(self@.tags),
    {
        let e = self.clone();
        EntryRow {
            id: e.id,
            activity: e.activity,
            elapsed: e.elapsed,
            description: e.description,
            timestamp: format_rfc3339(clamp_ts(e.timestamp)),
            tags: tags_to_json(&e.tags),
            last_modified: format_rfc3339(clamp_ts(e.last_modified)),
            synced: if e.synced {
                1
            } else {
                0
            },
            sync_id: e.sync_id,
            user_id: e.user_id,
        }
    }

    /// An entry read back from a durable row.  A malformed instant falls
    /// back to `now_ms` and a malformed tag list to the empty list, so a
    /// partially corrupt row still yields a readable entry; either way the
    /// instants land inside the library's range.
    pub fn from_row(row: EntryRow, now_ms: i64) -> (r: Self)
        ensures
            r@.id == row.id@,
            r@.activity == row.activity@,
            r@.elapsed == row.elapsed as int,
            r@.description == row.description.deep_view(),
            r@.tags == (match tags_of_json(row.tags@) {
                Some(t) => t,
                None => Seq::<Seq<char>>::empty(),
            }),
            r@.timestamp == (match rfc3339_millis(row.timestamp@) {
                Some(ms) => clamp_ms(ms),
                None => clamp_ms(now_ms as int),
            }),
            r@.last_modified == (match rfc3339_millis(row.last_modified@) {
                Some(ms) => clamp_ms(ms),
                None => clamp_ms(now_ms as int),
            }),
            r@.synced == (row.synced != 0),
            r@.sync_id == row.sync_id.deep_view(),
            r@.user_id == row.user_id.deep_view(),
            ts_valid(r@.timestamp),
            ts_valid(r@.last_modified),
    {
        let timestamp: i64 = match parse_rfc3339(row.timestamp.as_str()) {
            Some(ms) => clamp_ts(ms),
            None => clamp_ts(now_ms),
        };
        let last_modified: i64 = match parse_rfc3339(row.last_modified.as_str()) {
            Some(ms) => clamp_ts(ms),
            None => clamp_ts(now_ms),
        };
        let tags: Vec<String> = match tags_from_json(row.tags.as_str()) {
            Some(v) => v,
            None => {
                let empty: Vec<String> = Vec::new();
                proof {
                    assert(empty.deep_view() =~= Seq::<Seq<char>>::empty());
                }
                empty
            },
        };
        TimeEntry {
            id: row.id,
            activity: row.activity,
            elapsed: row.elapsed,
            description: row.description,
            tags,
            timestamp,
            last_modified,
            synced: row.synced != 0,
            sync_id: row.sync_id,
            user_id: row.user_id,
        }
    }
}

} // verus!
