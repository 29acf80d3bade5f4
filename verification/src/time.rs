//! Points in time, how they are written, and how long ago they were.
use vstd::prelude::*;

use crate::number::{decimal, i64_text};

verus! {

/// Whether a number of seconds since 1970, with nanoseconds, is a point in time that `chrono` can
/// hold: its years reach from -262143 to 262142, and only the last second of a minute can be
/// followed by a leap second.
pub open spec fn is_instant(secs: int, nanos: int) -> bool {
    &&& -8334601228800 <= secs <= 8210266876799
    &&& 0 <= nanos < 2000000000
    &&& nanos >= 1000000000 ==> secs % 60 == 59
}

/// A point in time: seconds since 1970, and nanoseconds. The nanoseconds of a leap second reach
/// beyond a thousand millions.
#[derive(Clone, Copy, Debug, PartialEq, Eq)]
pub struct Timestamp {
    secs: i64,
    nanos: u32,
}

impl View for Timestamp {
    type V = (int, int);

    closed spec fn view(&self) -> (int, int) {
        (self.secs as int, self.nanos as int)
    }
}

impl DeepView for Timestamp {
    type V = (int, int);

    open spec fn deep_view(&self) -> (int, int) {
        self@
    }
}

impl Timestamp {
    #[verifier::type_invariant]
    spec fn valid(self) -> bool {
        is_instant(self.secs as int, self.nanos as int)
    }

    /// A point in time, where it is one.
    pub fn new(secs: i64, nanos: u32) -> (r: Option<Timestamp>)
        ensures
            match r {
                Some(t) => is_instant(secs as int, nanos as int) && t@ == (
                    secs as int,
                    nanos as int,
                ),
                None => !is_instant(secs as int, nanos as int),
            },
    {
        if secs < -8334601228800 || secs > 8210266876799 || nanos >= 2000000000 {
            return None;
        }
        if nanos >= 1000000000 {
            let r: i64 = if secs >= 0 {
                secs % 60
            } else {
                59 - (-1 - secs) % 60
            };
            if r != 59 {
                return None;
            }
        }
        Some(Timestamp { secs, nanos })
    }

    /// Seconds since 1970.
    pub fn secs(&self) -> (r: i64)
        ensures
            r == self@.0,
    {
        self.secs
    }

    /// Nanoseconds.
    pub fn nanos(&self) -> (r: u32)
        ensures
            r == self@.1,
    {
        self.nanos
    }

    /// Whether this point in time comes after another one.
    pub fn is_after(&self, other: &Timestamp) -> (r: bool)
        ensures
            r == later(self@, other@),
    {
        self.secs > other.secs || self.secs == other.secs && self.nanos > other.nanos
    }

    /// How the point in time is written by RFC 3339.
    pub fn to_rfc3339(&self) -> (r: String)
        ensures
            r@ == rfc3339(self@.0, self@.1),
    {
        proof {
            use_type_invariant(self);
        }
        rfc3339_of(self.secs, self.nanos)
    }

    /// How the point in time is shown.
    pub fn shown(&self) -> (r: String)
        ensures
            r@ == date_text(self@.0, self@.1),
    {
        proof {
            use_type_invariant(self);
        }
        date_text_of(self.secs, self.nanos)
    }

    /// How many whole seconds lie between an earlier point in time and this one.
    pub fn seconds_since(&self, earlier: &Timestamp) -> (r: i64)
        ensures
            r == elapsed(self@, earlier@),
    {
        proof {
            use_type_invariant(self);
            use_type_invariant(earlier);
        }
        seconds_between(self.secs, self.nanos, earlier.secs, earlier.nanos)
    }
}

/// Whether `a` comes after `b`.
pub open spec fn later(a: (int, int), b: (int, int)) -> bool {
    a.0 > b.0 || a.0 == b.0 && a.1 > b.1
}

/// How `DateTime::<Utc>::to_rfc3339` writes a point in time.
pub uninterp spec fn rfc3339(secs: int, nanos: int) -> Seq<char>;

/// `chrono::DateTime::to_rfc3339`, for the point in time that `DateTime::from_timestamp` makes of
/// the two numbers: the text is a function of them.
#[verifier::external_body]
fn rfc3339_of(secs: i64, nanos: u32) -> (r: String)
    requires
        is_instant(secs as int, nanos as int),
    ensures
        r@ == rfc3339(secs as int, nanos as int),
{
    chrono::DateTime::from_timestamp(secs, nanos).unwrap_or_default().to_rfc3339()
}

/// How a `DateTime::<Utc>` is displayed.
pub uninterp spec fn date_text(secs: int, nanos: int) -> Seq<char>;

/// The `Display` of `chrono::DateTime`, for the point in time that `DateTime::from_timestamp` makes
/// of the two numbers: the text is a function of them.
#[verifier::external_body]
fn date_text_of(secs: i64, nanos: u32) -> (r: String)
    requires
        is_instant(secs as int, nanos as int),
    ensures
        r@ == date_text(secs as int, nanos as int),
{
    chrono::DateTime::from_timestamp(secs, nanos).unwrap_or_default().to_string()
}

/// The leap second that lies between two points in time, where one of them tells of it: a leap
/// second counts where the clock reads less in it than at the other point.
pub open spec fn leap_between(a: (int, int), b: (int, int)) -> int {
    if a.0 % 86400 > b.0 % 86400 && b.1 >= 1000000000 {
        1
    } else if a.0 % 86400 < b.0 % 86400 && a.1 >= 1000000000 {
        -1
    } else {
        0
    }
}

/// How many whole seconds lie between `b` and `a`, counted towards zero.
pub open spec fn elapsed(a: (int, int), b: (int, int)) -> int {
    let nanos = (a.0 - b.0 + leap_between(a, b)) * 1000000000 + a.1 - b.1;
    if nanos >= 0 {
        nanos / 1000000000
    } else {
        -(-nanos / 1000000000)
    }
}

/// The difference of two `chrono::DateTime`s and its `num_seconds`: the whole seconds between the
/// two points in time that `DateTime::from_timestamp` makes of the numbers.
#[verifier::external_body]
fn seconds_between(a_secs: i64, a_nanos: u32, b_secs: i64, b_nanos: u32) -> (r: i64)
    requires
        is_instant(a_secs as int, a_nanos as int),
        is_instant(b_secs as int, b_nanos as int),
    ensures
        r == elapsed((a_secs as int, a_nanos as int), (b_secs as int, b_nanos as int)),
{
    let a = chrono::DateTime::from_timestamp(a_secs, a_nanos).unwrap_or_default();
    let b = chrono::DateTime::from_timestamp(b_secs, b_nanos).unwrap_or_default();
    (a - b).num_seconds()
}

/// How long ago something was, `secs` being the seconds since: in seconds, minutes or hours, each
/// followed by `tail`; `date` where it was a day ago or more.
pub open spec fn ago(secs: int, tail: Seq<char>, date: Seq<char>) -> Seq<char> {
    if secs < 0 {
        decimal(0) + "s"@ + tail
    } else if secs < 60 {
        decimal(secs) + "s"@ + tail
    } else if secs < 3600 {
        decimal(secs / 60) + "m"@ + tail
    } else if secs < 86400 {
        decimal(secs / 3600) + "h"@ + tail
    } else {
        date
    }
}

/// How long ago something was that happened `secs` seconds before now.
pub fn format_relative_time(secs: i64, tail: &str, date: String) -> (r: String)
    ensures
        r@ == ago(secs as int, tail@, date@),
{
    let mut s = if secs < 60 {
        let mut s = i64_text(if secs < 0 {
            0
        } else {
            secs
        });
        s.append("s");
        s
    } else if secs < 3600 {
        let mut s = i64_text(secs / 60);
        s.append("m");
        s
    } else if secs < 86400 {
        let mut s = i64_text(secs / 3600);
        s.append("h");
        s
    } else {
        return date;
    };
    s.append(tail);
    s
}

/// How long before `now` something was, as a list shows it.
pub open spec fn age(now: (int, int), ts: (int, int)) -> Seq<char> {
    ago(elapsed(now, ts), Seq::empty(), rfc3339(ts.0, ts.1))
}

/// How long before `now` something was, as a list shows it.
pub fn format_relative_time_now(now: &Timestamp, ts: &Timestamp) -> (r: String)
    ensures
        r@ == age(now@, ts@),
{
    proof {
        reveal_strlit("");
        assert(""@ =~= Seq::<char>::empty());
    }
    format_relative_time(now.seconds_since(ts), "", ts.to_rfc3339())
}

/// How long before `now` something was, as the terminal shows it.
pub open spec fn age_ago(now: (int, int), ts: (int, int)) -> Seq<char> {
    ago(elapsed(now, ts), " ago"@, rfc3339(ts.0, ts.1))
}

/// How long before `now` something was, as the terminal shows it.
pub fn relative_time_ago(now: &Timestamp, ts: &Timestamp) -> (r: String)
    ensures
        r@ == age_ago(now@, ts@),
{
    format_relative_time(now.seconds_since(ts), " ago", ts.to_rfc3339())
}

/// What lies in the future was no time ago.
pub proof fn law_the_future_is_now(now: (int, int), ts: (int, int))
    requires
        later(ts, now),
        is_instant(now.0, now.1),
        is_instant(ts.0, ts.1),
    ensures
        age(now, ts) == decimal(0) + "s"@,
        age_ago(now, ts) == decimal(0) + "s"@ + " ago"@,
{
    assert(ts.0 % 60 == 59 ==> ts.0 % 86400 >= 59);
    assert(elapsed(now, ts) <= 0);
    assert(decimal(0) + "s"@ + Seq::<char>::empty() == decimal(0) + "s"@);
}

/// Of two points in time one comes after the other, unless they are the same; more seconds are
/// later, and within a second more nanoseconds are.
pub proof fn law_time_goes_one_way(a: (int, int), b: (int, int), c: (int, int))
    ensures
        a != b ==> later(a, b) || later(b, a),
        !(later(a, b) && later(b, a)),
        later(a, b) && later(b, c) ==> later(a, c),
        a.0 > b.0 ==> later(a, b),
        a.0 == b.0 && a.1 > b.1 ==> later(a, b),
{
}

/// The seconds between two points in time without leap seconds are the seconds that went by.
pub proof fn law_seconds_are_counted(secs: int, nanos: int, went: int)
    requires
        0 <= nanos < 1000000000,
    ensures
        elapsed((secs + went, nanos), (secs, nanos)) == went,
{
}

/// What was less than a minute ago is told in whole seconds, what was less than an hour ago in
/// whole minutes, what was less than a day ago in whole hours, and anything else by its date.
pub proof fn law_ages_are_told_in_whole_units(
    secs: int,
    n: int,
    tail: Seq<char>,
    date: Seq<char>,
)
    ensures
        0 <= secs < 60 ==> ago(secs, tail, date) == decimal(secs) + "s"@ + tail,
        60 <= secs < 3600 && 60 * n <= secs < 60 * (n + 1) ==> ago(secs, tail, date) == decimal(n)
            + "m"@ + tail,
        3600 <= secs < 86400 && 3600 * n <= secs < 3600 * (n + 1) ==> ago(secs, tail, date)
            == decimal(n) + "h"@ + tail,
        secs >= 86400 ==> ago(secs, tail, date) == date,
{
}

/// A list tells just the age, and the terminal that it was so long ago; both go by the seconds that
/// went by, and fall back on the date.
pub proof fn law_lists_and_terminal_tell_the_same_age(now: (int, int), ts: (int, int))
    ensures
        0 <= elapsed(now, ts) < 60 ==> age(now, ts) == decimal(elapsed(now, ts)) + "s"@,
        elapsed(now, ts) < 86400 ==> age_ago(now, ts) == age(now, ts) + " ago"@,
        elapsed(now, ts) >= 86400 ==> age(now, ts) == rfc3339(ts.0, ts.1) && age_ago(now, ts)
            == rfc3339(ts.0, ts.1),
{
    let none = Seq::<char>::empty();
    let s = elapsed(now, ts);
    assert(decimal(0) + "s"@ + none =~= decimal(0) + "s"@);
    assert(decimal(s) + "s"@ + none =~= decimal(s) + "s"@);
    assert(decimal(s / 60) + "m"@ + none =~= decimal(s / 60) + "m"@);
    assert(decimal(s / 3600) + "h"@ + none =~= decimal(s / 3600) + "h"@);
}

/// Any second within the years that can be held is a point in time with each of its nanoseconds;
/// beyond a thousand millions of them it is one only at the end of a minute.
pub proof fn law_points_in_time(secs: int, nanos: int)
    ensures
        is_instant(secs, nanos) ==> -8334601228800 <= secs <= 8210266876799 && 0 <= nanos
            < 2000000000,
        -8334601228800 <= secs <= 8210266876799 && 0 <= nanos < 1000000000 ==> is_instant(
            secs,
            nanos,
        ),
        -8334601228800 <= secs <= 8210266876799 && 1000000000 <= nanos < 2000000000 ==> (is_instant(
            secs,
            nanos,
        ) <==> (secs + 1) % 60 == 0),
{
}

} // verus!
