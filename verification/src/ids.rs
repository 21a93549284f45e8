//! Session identifiers and the clock.

use vstd::prelude::*;

verus! {

/// A point in time: whole seconds since the Unix epoch and the nanoseconds on top of them.
#[derive(Clone, Copy, Debug, PartialEq, Eq, Structural)]
pub struct Timestamp {
    pub seconds: i64,
    pub nanoseconds: u32,
}

/// A time that a clock may show: not before the epoch, and with less than a second on top of the
/// whole seconds.
pub open spec fn is_clock_time(time: Timestamp) -> bool {
    &&& time.seconds >= 0
    &&& time.nanoseconds < 1_000_000_000
}

/// A hexadecimal digit, in either case.
pub open spec fn is_hex_digit(c: char) -> bool {
    ||| '0' <= c <= '9'
    ||| 'a' <= c <= 'f'
    ||| 'A' <= c <= 'F'
}

/// The hyphenated form of a UUID: groups of 8, 4, 4, 4 and 12 hexadecimal digits.
pub open spec fn is_hyphenated(s: Seq<char>) -> bool {
    &&& s.len() == 36
    &&& forall|i: int|
        0 <= i < 36 ==> if i == 8 || i == 13 || i == 18 || i == 23 {
            #[trigger] s[i] == '-'
        } else {
            is_hex_digit(s[i])
        }
}

/// The prefix `urn:uuid:`, in any mix of cases.
pub open spec fn is_urn_prefix(s: Seq<char>) -> bool {
    &&& s.len() == 9
    &&& (s[0] == 'u' || s[0] == 'U')
    &&& (s[1] == 'r' || s[1] == 'R')
    &&& (s[2] == 'n' || s[2] == 'N')
    &&& s[3] == ':'
    &&& (s[4] == 'u' || s[4] == 'U')
    &&& (s[5] == 'u' || s[5] == 'U')
    &&& (s[6] == 'i' || s[6] == 'I')
    &&& (s[7] == 'd' || s[7] == 'D')
    &&& s[8] == ':'
}

/// The texts that denote a UUID: bare digits, hyphenated, hyphenated in braces, or a URN.
pub open spec fn is_uuid(s: Seq<char>) -> bool {
    ||| s.len() == 32 && forall|i: int| 0 <= i < 32 ==> is_hex_digit(#[trigger] s[i])
    ||| is_hyphenated(s)
    ||| s.len() == 38 && s[0] == '{' && s[37] == '}' && is_hyphenated(s.subrange(1, 37))
    ||| s.len() == 45 && is_urn_prefix(s.subrange(0, 9)) && is_hyphenated(s.subrange(9, 45))
}

/// Calls `uuid::Uuid::parse_str` and keeps whether it succeeded. Claimed of it: it accepts the
/// four written forms of a UUID that [`is_uuid`] lists, in either letter case, and no others.
#[verifier::external_body]
fn parses_as_uuid(text: &str) -> (accepted: bool)
    ensures
        accepted == is_uuid(text@),
{
    uuid::Uuid::parse_str(text).is_ok()
}

/// Calls `uuid::Uuid::now_v7` and formats the result with its `Display` impl. Claimed of it,
/// whatever the clock and the random source give: the text is a hyphenated UUID in lower case
/// whose version digit is 7. Where there is no random source, or the clock is set before the
/// epoch, the call panics.
#[verifier::external_body]
fn new_uuid() -> (text: String)
    ensures
        is_hyphenated(text@),
        text@[14] == '7',
        forall|i: int| 0 <= i < 36 ==> !('A' <= #[trigger] text@[i] <= 'F'),
{
    uuid::Uuid::now_v7().to_string()
}

/// Calls `chrono::Utc::now` and takes the result apart with `timestamp` and
/// `timestamp_subsec_nanos`. Claimed of it, whatever the clock shows: the time is not before the
/// epoch, and the nanoseconds stay below a second. A clock that is set before the epoch makes the
/// call panic.
#[verifier::external_body]
pub(crate) fn now() -> (time: Timestamp)
    ensures
        is_clock_time(time),
{
    let time = chrono::Utc::now();
    Timestamp { seconds: time.timestamp(), nanoseconds: time.timestamp_subsec_nanos() }
}

/// What a step may take from the outside without asking for it: an identifier for a session that
/// is about to be recorded, and the current time.
#[derive(Debug)]
pub struct Fresh {
    pub session_id: String,
    pub now: Timestamp,
}

#[verifier::ext_equal]
pub struct FreshView {
    pub session_id: Seq<char>,
    pub now: Timestamp,
}

impl View for Fresh {
    type V = FreshView;

    open spec fn view(&self) -> FreshView {
        FreshView { session_id: self.session_id@, now: self.now }
    }
}

impl FreshView {
    /// What every drawn value satisfies: the identifier is a time-ordered UUID in its usual
    /// spelling, and the time is a proper one.
    pub open spec fn is_drawn(self) -> bool {
        &&& is_hyphenated(self.session_id)
        &&& self.session_id[14] == '7'
        &&& forall|i: int| 0 <= i < 36 ==> !('A' <= #[trigger] self.session_id[i] <= 'F')
        &&& is_clock_time(self.now)
    }
}

/// Something can be drawn at every time.
pub proof fn drawn_values_exist(now: Timestamp) -> (fresh: FreshView)
    requires
        is_clock_time(now),
    ensures
        fresh.is_drawn(),
        fresh.now == now,
{
    let session_id = Seq::new(
        36,
        |i: int|
            if i == 8 || i == 13 || i == 18 || i == 23 {
                '-'
            } else if i == 14 {
                '7'
            } else {
                '0'
            },
    );
    FreshView { session_id, now }
}

impl Fresh {
    /// Draws a new session identifier and reads the clock.
    pub fn draw() -> (fresh: Fresh)
        ensures
            fresh@.is_drawn(),
    {
        Fresh { session_id: new_uuid(), now: now() }
    }
}

/// Whether a text may name a saved session.
pub fn is_session_id(text: &String) -> (accepted: bool)
    ensures
        accepted == is_uuid(text@),
{
    parses_as_uuid(text.as_str())
}

/// A text that, as a path component, stays inside the directory it is joined to: it holds no
/// separator and is neither the directory itself nor its parent.
pub open spec fn is_plain_component(s: Seq<char>) -> bool {
    &&& s.len() > 2
    &&& forall|i: int| 0 <= i < s.len() ==> #[trigger] s[i] != '/' && s[i] != '\\' && s[i] != '\0'
}

/// A session identifier names a directory directly below the one that holds the sessions.
pub proof fn session_id_is_plain_component(s: Seq<char>)
    requires
        is_uuid(s),
    ensures
        is_plain_component(s),
{
    assert forall|i: int| 0 <= i < s.len() implies #[trigger] s[i] != '/' && s[i] != '\\' && s[i]
        != '\0' by {
        if s.len() == 38 && i >= 1 && i < 37 {
            assert(s.subrange(1, 37)[i - 1] == s[i]);
        }
        if s.len() == 45 {
            if i < 9 {
                assert(s.subrange(0, 9)[i] == s[i]);
            } else {
                assert(s.subrange(9, 45)[i - 9] == s[i]);
            }
        }
    }
}

} // verus!
