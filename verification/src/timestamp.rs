use vstd::prelude::*;

verus! {

/// A point in time: whole seconds since 1970-01-01T00:00:00Z and the
/// nanoseconds past that second.
///
/// Two timestamps are ordered by their seconds first and by their nanoseconds
/// second. The nanosecond part is not limited to one second, so that a leap
/// second keeps its place between the second before and the second after.
#[derive(Clone, Copy, Debug, PartialEq, Eq, Structural)]
pub struct Timestamp {
    pub secs: i64,
    pub nanos: u32,
}

/// The text that `chrono` writes for the moment `secs` seconds and `nanos`
/// nanoseconds after 1970-01-01T00:00:00Z, in UTC, under a `strftime`
/// pattern; none where `chrono` has no date for that moment.
pub uninterp spec fn formatted(secs: int, nanos: int, pattern: Seq<char>) -> Option<Seq<char>>;

/// The pattern under which the tracker shows a moment: the date with
/// slashes, a blank, the time with colons.
pub open spec fn display_pattern() -> Seq<char> {
    "%Y/%m/%d %H:%M:%S"@
}

impl Timestamp {
    /// `self` is not later than `other`.
    pub open spec fn at_or_before(self, other: Timestamp) -> bool {
        self.secs < other.secs || (self.secs == other.secs && self.nanos <= other.nanos)
    }

    /// The later of the two; `self` when they are equal.
    pub open spec fn latest(self, other: Timestamp) -> Timestamp {
        if other.at_or_before(self) {
            self
        } else {
            other
        }
    }

    /// The moment `nanos` nanoseconds after the second `secs`.
    pub fn new(secs: i64, nanos: u32) -> (t: Timestamp)
        ensures
            t == (Timestamp { secs, nanos }),
    {
        Timestamp { secs, nanos }
    }

    /// Whether `self` is not later than `other`.
    pub fn is_at_or_before(&self, other: &Timestamp) -> (r: bool)
        ensures
            r == self.at_or_before(*other),
    {
        self.secs < other.secs || (self.secs == other.secs && self.nanos <= other.nanos)
    }

    /// The later of the two; `self` when they are equal.
    pub fn later_of(self, other: Timestamp) -> (t: Timestamp)
        ensures
            t == self.latest(other),
    {
        if other.is_at_or_before(&self) {
            self
        } else {
            other
        }
    }

    /// The moment as the tracker shows it, in UTC; none where the calendar
    /// has no date for it.
    pub fn display(&self) -> (r: Option<String>)
        ensures
            match r {
                Some(text) => formatted(self.secs as int, self.nanos as int, display_pattern())
                    == Some(text@),
                None => formatted(self.secs as int, self.nanos as int, display_pattern()) is None,
            },
    {
        Timestamp::format_with(*self, "%Y/%m/%d %H:%M:%S")
    }

    /// Writes a moment through `chrono::DateTime::format`, after
    /// `chrono::DateTime::from_timestamp` has made the moment from its
    /// seconds and nanoseconds.
    ///
    /// Claimed of `chrono`: the text depends on the moment and the pattern
    /// alone, and there is none exactly where `from_timestamp` has no date
    /// for the moment. Only the tracker's own pattern is let in, which
    /// `chrono` can write for every date.
    #[verifier::external_body]
    fn format_with(t: Timestamp, pattern: &str) -> (r: Option<String>)
        requires
            pattern@ == display_pattern(),
        ensures
            match r {
                Some(text) => formatted(t.secs as int, t.nanos as int, pattern@) == Some(text@),
                None => formatted(t.secs as int, t.nanos as int, pattern@) is None,
            },
    {
        match chrono::DateTime::from_timestamp(t.secs, t.nanos) {
            Some(moment) => Some(moment.format(pattern).to_string()),
            None => None,
        }
    }

    /// Reads the system clock through `chrono::Utc::now`.
    ///
    /// Nothing is claimed of the value: the clock may stand anywhere and may
    /// move backwards between two readings. `chrono` panics when the
    /// clock stands before 1970 or after the last year it can represent.
    #[verifier::external_body]
    pub(crate) fn now() -> (t: Timestamp) {
        let moment = chrono::Utc::now();
        Timestamp { secs: moment.timestamp(), nanos: moment.timestamp_subsec_nanos() }
    }
}

/// The order of timestamps is total: any two can be compared, and the
/// comparison is reflexive, antisymmetric and transitive.
pub proof fn lemma_timestamp_order(a: Timestamp, b: Timestamp, c: Timestamp)
    ensures
        a.at_or_before(a),
        a.at_or_before(b) || b.at_or_before(a),
        a.at_or_before(b) && b.at_or_before(a) ==> a == b,
        a.at_or_before(b) && b.at_or_before(c) ==> a.at_or_before(c),
{
}

/// The later of two timestamps is one of them and is not before either.
pub proof fn lemma_latest(a: Timestamp, b: Timestamp)
    ensures
        a.latest(b) == a || a.latest(b) == b,
        a.at_or_before(a.latest(b)),
        b.at_or_before(a.latest(b)),
        b.at_or_before(a) ==> a.latest(b) == a,
        a.at_or_before(b) ==> a.latest(b) == b,
{
}

} // verus!
