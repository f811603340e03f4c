//! How a timestamp reads in the local time zone, and a table that keeps the
//! readings of one document.

use crate::error::ClockFailure;
use chrono::{DateTime, FixedOffset, Local, Locale, TimeZone, Utc};
use std::fmt::Write;
use vstd::prelude::*;

verus! {

/// An instant: the seconds since the start of 1970 in UTC, leap seconds
/// not counted, and the nanoseconds since that second began. In a leap
/// second the nanoseconds go beyond a full second.
#[derive(Debug, Clone, Copy, PartialEq, Eq, Structural)]
pub struct Instant {
    pub seconds: i64,
    pub nanos: u32,
}

/// The instant that a text names: a date and a time with an offset, in the
/// relaxed form of RFC 3339 that `DateTime<Utc>` parses. `None` for a text
/// that is no such timestamp.
pub uninterp spec fn instant_of(text: Seq<char>) -> Option<Instant>;

/// The instant as RFC 3339 writes it at `offset` seconds east of UTC: date,
/// time, the fraction of the second where there is one, and the offset.
/// `None` where the offset is a day or more, or the instant beyond the dates
/// that can be told.
pub uninterp spec fn rfc3339_text(instant: Instant, offset: int) -> Option<Seq<char>>;

/// The instant at `offset` seconds east of UTC, written after a
/// `strftime` pattern with English names of days and months. `None` where
/// the pattern cannot be written, the offset is a day or more, or the
/// instant beyond the dates that can be told.
pub uninterp spec fn localized_text(instant: Instant, offset: int, pattern: Seq<char>) -> Option<
    Seq<char>,
>;

/// Whether a text is a timestamp.
pub open spec fn is_timestamp(text: Seq<char>) -> bool {
    instant_of(text) is Some
}

/// The characters of a text that may be missing.
pub open spec fn shown(text: Option<String>) -> Option<Seq<char>> {
    match text {
        Some(text) => Some(text@),
        None => None,
    }
}

/// `str::parse` for `DateTime<Utc>`, with `DateTime::timestamp` and
/// `DateTime::timestamp_subsec_nanos` for the two numbers: the instant that
/// `text` names, where it names one.
#[verifier::external_body]
fn parse_utc(text: &str) -> (instant: Option<Instant>)
    ensures
        instant == instant_of(text@),
{
    text.parse::<DateTime<Utc>>().ok().map(
        |parsed| Instant { seconds: parsed.timestamp(), nanos: parsed.timestamp_subsec_nanos() },
    )
}

/// `Local::offset_from_utc_datetime`: the seconds east of UTC that the time
/// zone of this machine has at the given instant, which is made with
/// `DateTime::from_timestamp`. `None` for an instant beyond the dates that
/// can be told. Which offset comes is the machine's affair; every offset
/// is less than a day either way.
#[verifier::external_body]
fn local_offset(instant: Instant) -> (offset: Option<i32>)
    ensures
        offset matches Some(seconds) ==> -86_400 < seconds < 86_400,
{
    DateTime::from_timestamp(instant.seconds, instant.nanos).map(
        |utc| Local.offset_from_utc_datetime(&utc.naive_utc()).local_minus_utc(),
    )
}

/// `DateTime::to_rfc3339`, of the instant at the given offset. The instant
/// is made with `DateTime::from_timestamp` and set at the offset with
/// `FixedOffset::east_opt` and `DateTime::with_timezone`; where one of the
/// two has no value for the numbers, there is no text.
#[verifier::external_body]
fn machine_form(instant: Instant, offset: i32) -> (text: Option<String>)
    ensures
        shown(text) == rfc3339_text(instant, offset as int),
{
    let zone = FixedOffset::east_opt(offset)?;
    let utc = DateTime::from_timestamp(instant.seconds, instant.nanos)?;
    Some(utc.with_timezone(&zone).to_rfc3339())
}

/// `DateTime::format_localized` in English, written out: the instant at the
/// given offset, after `pattern`. The instant and the offset are made as
/// for the other form; where they cannot be made or the pattern cannot be
/// written, there is no text.
#[verifier::external_body]
fn display_form(instant: Instant, offset: i32, pattern: &str) -> (text: Option<String>)
    ensures
        shown(text) == localized_text(instant, offset as int, pattern@),
{
    let zone = FixedOffset::east_opt(offset)?;
    let utc = DateTime::from_timestamp(instant.seconds, instant.nanos)?;
    let mut text = String::new();
    write!(text, "{}", utc.with_timezone(&zone).format_localized(pattern, Locale::en_US)).ok()?;
    Some(text)
}

/// The two forms in which a document shows one instant: `machine` for the
/// `datetime` attribute, `display` for the reader.
#[derive(Debug, Clone, PartialEq)]
pub struct Stamp {
    pub machine: String,
    pub display: String,
}

/// A [`Stamp`] by its characters.
pub struct StampView {
    pub machine: Seq<char>,
    pub display: Seq<char>,
}

impl View for Stamp {
    type V = StampView;

    open spec fn view(&self) -> StampView {
        StampView { machine: self.machine@, display: self.display@ }
    }
}

/// The pattern of the form that a reader sees: `Wed, Jan 01, 2025 at 13:45`.
pub open spec fn display_pattern() -> Seq<char> {
    "%a, %b %d, %Y at %H:%M"@
}

/// How an instant reads at `offset` seconds east of UTC: as RFC 3339 writes
/// it for the machine, and after [`display_pattern`] for the reader. `None`
/// where one of the two cannot be written.
pub open spec fn reading_at(instant: Instant, offset: int) -> Option<StampView> {
    match (rfc3339_text(instant, offset), localized_text(instant, offset, display_pattern())) {
        (Some(machine), Some(display)) => Some(StampView { machine, display }),
        _ => None,
    }
}

/// Whether `stamp` is how the timestamp `text` reads at some offset from
/// UTC: both forms show the same instant at the same offset.
pub open spec fn is_local_reading(text: Seq<char>, stamp: StampView) -> bool {
    instant_of(text) matches Some(instant) && exists|offset: int| #[trigger]
        reading_at(instant, offset) == Some(stamp)
}

/// Whether each reading is how the timestamp it belongs to reads at some
/// offset from UTC.
pub open spec fn local_readings(readings: Map<Seq<char>, StampView>) -> bool {
    forall|text: Seq<char>| #[trigger]
        readings.contains_key(text) ==> is_local_reading(text, readings[text])
}

/// Puts the two forms of an instant together, where both could be written.
pub fn stamp_of(machine: Option<String>, display: Option<String>) -> (made: Result<
    Stamp,
    ClockFailure,
>)
    ensures
        made == match (machine, display) {
            (Some(machine), Some(display)) => Ok(Stamp { machine, display }),
            _ => Err(ClockFailure::Unwritable),
        },
{
    match (machine, display) {
        (Some(machine), Some(display)) => Ok(Stamp { machine, display }),
        _ => Err(ClockFailure::Unwritable),
    }
}

/// How an instant reads at `offset` seconds east of UTC.
pub fn read_at(instant: Instant, offset: i32) -> (made: Result<Stamp, ClockFailure>)
    ensures
        match reading_at(instant, offset as int) {
            Some(reading) => made matches Ok(stamp) && stamp@ == reading,
            None => made == Err::<Stamp, ClockFailure>(ClockFailure::Unwritable),
        },
{
    let machine = machine_form(instant, offset);
    let display = display_form(instant, offset, "%a, %b %d, %Y at %H:%M");
    stamp_of(machine, display)
}

struct Reading {
    text: String,
    stamp: Stamp,
}

/// What a list of readings says of each text: where a text stands twice, the
/// later reading counts.
spec fn readings(entries: Seq<Reading>) -> Map<Seq<char>, StampView>
    decreases entries.len(),
{
    if entries.len() == 0 {
        Map::empty()
    } else {
        readings(entries.drop_last()).insert(entries.last().text@, entries.last().stamp@)
    }
}

proof fn lemma_readings_absent(entries: Seq<Reading>, text: Seq<char>)
    requires
        forall|j: int| 0 <= j < entries.len() ==> (#[trigger] entries[j]).text@ != text,
    ensures
        !readings(entries).contains_key(text),
    decreases entries.len(),
{
    if entries.len() > 0 {
        lemma_readings_absent(entries.drop_last(), text);
    }
}

proof fn lemma_readings_present(entries: Seq<Reading>, text: Seq<char>, at: int)
    requires
        0 <= at < entries.len(),
        entries[at].text@ == text,
        forall|j: int| at < j < entries.len() ==> (#[trigger] entries[j]).text@ != text,
    ensures
        readings(entries).contains_key(text),
        readings(entries)[text] == entries[at].stamp@,
    decreases entries.len(),
{
    if at < entries.len() - 1 {
        lemma_readings_present(entries.drop_last(), text, at);
    }
}

/// The texts that a clock with the given readings can tell the time of:
/// those that it has a reading for, and every timestamp.
pub open spec fn readable(readings: Map<Seq<char>, StampView>) -> Set<Seq<char>> {
    Set::new(|text: Seq<char>| readings.contains_key(text) || is_timestamp(text))
}

/// Readings that were kept twice over are kept.
pub proof fn lemma_readings_kept(
    first: Map<Seq<char>, StampView>,
    second: Map<Seq<char>, StampView>,
    third: Map<Seq<char>, StampView>,
)
    requires
        first.submap_of(second),
        second.submap_of(third),
    ensures
        first.submap_of(third),
        first.dom().subset_of(third.dom()),
{
    vstd::map_lib::lemma_submap_of_trans(first, second, third);
    assert forall|text: Seq<char>| first.dom().contains(text) implies third.dom().contains(text) by {
        assert(second.dom().contains(text));
    }
}

/// The readings of the timestamps of one document, by the text of each.
pub struct Clock {
    entries: Vec<Reading>,
}

impl View for Clock {
    type V = Map<Seq<char>, StampView>;

    closed spec fn view(&self) -> Map<Seq<char>, StampView> {
        readings(self.entries@)
    }
}

impl Clock {
    /// A clock that knows no timestamp yet.
    pub fn new() -> (clock: Clock)
        ensures
            clock@ == Map::<Seq<char>, StampView>::empty(),
    {
        Clock { entries: Vec::new() }
    }

    /// The reading of `text`, where the clock has one.
    pub fn get(&self, text: &str) -> (found: Option<&Stamp>)
        ensures
            (found is Some) == self@.contains_key(text@),
            found matches Some(stamp) ==> stamp@ == self@[text@],
    {
        let wanted = text.to_owned();
        let mut i: usize = self.entries.len();
        while i > 0
            invariant
                i <= self.entries.len(),
                wanted@ == text@,
                forall|j: int|
                    i <= j < self.entries.len() ==> (#[trigger] self.entries@[j]).text@ != text@,
            decreases i,
        {
            i -= 1;
            if self.entries[i].text == wanted {
                proof {
                    lemma_readings_present(self.entries@, text@, i as int);
                }
                return Some(&self.entries[i].stamp);
            }
        }
        proof {
            lemma_readings_absent(self.entries@, text@);
        }
        None
    }

    /// Tells the clock how `text` reads. An earlier reading of the same text
    /// is forgotten.
    pub fn set(&mut self, text: &str, stamp: Stamp)
        ensures
            final(self)@ == old(self)@.insert(text@, stamp@),
    {
        let ghost before = self.entries@;
        let reading = Reading { text: text.to_owned(), stamp };
        self.entries.push(reading);
        proof {
            assert(self.entries@.drop_last() == before);
        }
    }

    /// Reads `text` in the time zone of this machine, unless the clock knows
    /// it already. A text that is no timestamp is `Unresolved`; a failure
    /// leaves the clock as it was.
    pub fn learn(&mut self, text: &str) -> (learnt: Result<(), ClockFailure>)
        ensures
            learnt is Ok ==> final(self)@.contains_key(text@),
            learnt is Ok ==> old(self)@.submap_of(final(self)@),
            learnt is Ok ==> final(self)@.dom() == old(self)@.dom().insert(text@),
            learnt is Ok && !old(self)@.contains_key(text@) ==> is_local_reading(
                text@,
                final(self)@[text@],
            ),
            learnt is Err ==> final(self)@ == old(self)@,
            old(self)@.contains_key(text@) ==> learnt is Ok && final(self)@ == old(self)@,
            !old(self)@.contains_key(text@) && !is_timestamp(text@) ==> learnt == Err::<
                (),
                ClockFailure,
            >(ClockFailure::Unresolved),
            learnt == Err::<(), ClockFailure>(ClockFailure::Unresolved) ==> !is_timestamp(text@),
            readable(final(self)@) == readable(old(self)@),
            local_readings(old(self)@) ==> local_readings(final(self)@),
    {
        if self.get(text).is_some() {
            return Ok(());
        }
        let instant = match parse_utc(text) {
            Some(instant) => instant,
            None => {
                return Err(ClockFailure::Unresolved);
            },
        };
        let offset = match local_offset(instant) {
            Some(offset) => offset,
            None => {
                return Err(ClockFailure::Unwritable);
            },
        };
        match read_at(instant, offset) {
            Ok(stamp) => {
                self.set(text, stamp);
                proof {
                    assert(self@.dom() =~= old(self)@.dom().insert(text@));
                    assert(readable(self@) =~= readable(old(self)@));
                    assert(reading_at(instant, offset as int) == Some(stamp@));
                    assert(is_local_reading(text@, self@[text@]));
                }
                Ok(())
            },
            Err(error) => Err(error),
        }
    }
}

} // verus!
