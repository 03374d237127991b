//! Instants: comparison, shifting by seconds and days, and RFC 3339 text.

use vstd::prelude::*;

verus! {

/// The first second that a calendar date can be given for.
pub const MIN_SECS: i64 = -8_334_601_228_800;

/// The last second that a calendar date can be given for.
pub const MAX_SECS: i64 = 8_210_266_876_799;

/// A point in time: whole seconds since the Unix epoch, and nanoseconds within
/// the second.
#[derive(Clone, Copy, Debug, PartialEq, Eq, Structural)]
pub struct Timestamp {
    pub secs: i64,
    pub nanos: u32,
}

impl Timestamp {
    /// Whether the point lies in the range of calendar dates.
    pub open spec fn valid(self) -> bool {
        MIN_SECS <= self.secs <= MAX_SECS && self.nanos < 1_000_000_000
    }

    /// Nanoseconds since the Unix epoch.
    pub open spec fn instant(self) -> int {
        self.secs * 1_000_000_000 + self.nanos
    }

    /// Whether the point `secs` seconds later is still in range.
    pub open spec fn shiftable(self, secs: int) -> bool {
        self.valid() && MIN_SECS <= self.secs + secs <= MAX_SECS
    }

    /// Whether the point lies in the range of calendar dates.
    pub fn is_valid(&self) -> (r: bool)
        ensures
            r == self.valid(),
    {
        MIN_SECS <= self.secs && self.secs <= MAX_SECS && self.nanos < 1_000_000_000
    }

    /// Whether the point `secs` seconds later is still in range.
    pub fn is_shiftable(&self, secs: i64) -> (r: bool)
        ensures
            r == self.shiftable(secs as int),
    {
        if !self.is_valid() {
            return false;
        }
        match self.secs.checked_add(secs) {
            Some(s) => MIN_SECS <= s && s <= MAX_SECS,
            None => false,
        }
    }

    /// The point `secs` seconds later.
    pub fn plus_secs(&self, secs: i64) -> (r: Timestamp)
        requires
            self.shiftable(secs as int),
        ensures
            r.valid(),
            r.instant() == self.instant() + secs * 1_000_000_000,
            r == (Timestamp { secs: (self.secs + secs) as i64, nanos: self.nanos }),
    {
        Timestamp { secs: self.secs + secs, nanos: self.nanos }
    }

    /// Whether this point comes before `other`.
    pub open spec fn precedes(self, other: Timestamp) -> bool {
        self.secs < other.secs || (self.secs == other.secs && self.nanos < other.nanos)
    }

    /// Whether this point comes before `other`.
    pub fn before(&self, other: &Timestamp) -> (r: bool)
        ensures
            r == self.precedes(*other),
    {
        self.secs < other.secs || (self.secs == other.secs && self.nanos < other.nanos)
    }
}

/// The whole seconds from `then` to `now`, counted towards zero.
pub open spec fn whole_secs(now: Timestamp, then: Timestamp) -> int {
    let d = now.instant() - then.instant();
    if d >= 0 {
        d / 1_000_000_000
    } else {
        -((-d) / 1_000_000_000)
    }
}

/// Whether more than `limit` whole seconds have passed from `then` to `now`.
/// A point that lies a second or more in the future counts as long past,
/// unless no limit is that large.
pub open spec fn elapsed_exceeds(now: Timestamp, then: Timestamp, limit: u64) -> bool {
    let d = whole_secs(now, then);
    if d >= 0 {
        d > limit
    } else {
        d + 0x1_0000_0000_0000_0000 > limit
    }
}

/// Whether more than `limit` whole seconds have passed from `then` to `now`.
pub fn exceeds_elapsed(now: &Timestamp, then: &Timestamp, limit: u64) -> (r: bool)
    ensures
        r == elapsed_exceeds(*now, *then, limit),
{
    let a: i128 = now.secs as i128 * 1_000_000_000 + now.nanos as i128;
    let b: i128 = then.secs as i128 * 1_000_000_000 + then.nanos as i128;
    let d: i128 = a - b;
    if d >= 0 {
        let secs: u128 = d as u128 / 1_000_000_000;
        secs > limit as u128
    } else {
        let back: u128 = (-d) as u128 / 1_000_000_000;
        if back == 0 {
            false
        } else {
            0x1_0000_0000_0000_0000u128 > limit as u128 + back
        }
    }
}

/// Points are ordered as their distance from the epoch.
pub proof fn order_is_by_instant(a: Timestamp, b: Timestamp)
    requires
        a.valid(),
        b.valid(),
    ensures
        a.precedes(b) <==> a.instant() < b.instant(),
{
}

/// The RFC 3339 text of the instant `nanos` nanoseconds after second `secs`.
pub uninterp spec fn rfc3339_text(secs: int, nanos: int) -> Seq<char>;

/// `chrono::DateTime::to_rfc3339` on the instant in UTC: the text depends on
/// the instant alone. `DateTime::from_timestamp` has a value for every instant
/// in the range of calendar dates.
#[verifier::external_body]
pub(crate) fn rfc3339(t: &Timestamp) -> (r: String)
    requires
        t.valid(),
    ensures
        r@ == rfc3339_text(t.secs as int, t.nanos as int),
{
    chrono::DateTime::<chrono::Utc>::from_timestamp(t.secs, t.nanos).unwrap().to_rfc3339()
}

/// A limit is exceeded once one whole second more than it has passed, and not
/// before; a point less than a second ahead has not passed at all, and one that
/// lies further ahead counts as long past.
pub proof fn limits_hold_to_the_second(now: Timestamp, then: Timestamp, limit: u64, r: bool)
    requires
        call_ensures(exceeds_elapsed, (&now, &then, limit), r),
        now.valid(),
        then.valid(),
    ensures
        now.instant() >= then.instant() ==> (r <==> now.instant() - then.instant() >= (limit + 1)
            * 1_000_000_000),
        then.instant() - 1_000_000_000 < now.instant() < then.instant() ==> !r,
        now.instant() <= then.instant() - 1_000_000_000 && limit <= 0x7fff_ffff_ffff_ffff ==> r,
{
}

/// Shifting by seconds keeps the order and can be undone.
pub proof fn shifts_can_be_undone(t: Timestamp, secs: i64, there: Timestamp, back: Timestamp)
    requires
        t.shiftable(secs as int),
        secs > i64::MIN,
        call_ensures(Timestamp::plus_secs, (&t, secs), there),
        call_ensures(Timestamp::plus_secs, (&there, (-secs) as i64), back),
    ensures
        back == t,
        there.instant() - t.instant() == secs * 1_000_000_000,
{
}

/// Of two points exactly one comes before the other, unless they are the same.
pub proof fn points_are_in_order(a: Timestamp, b: Timestamp, ab: bool, ba: bool)
    requires
        call_ensures(Timestamp::before, (&a, &b), ab),
        call_ensures(Timestamp::before, (&b, &a), ba),
        a.valid(),
        b.valid(),
    ensures
        ab <==> a.instant() < b.instant(),
        ba <==> b.instant() < a.instant(),
        !ab && !ba <==> a == b,
{
}

/// Points in range are those from the year -262143 to the year 262142.
pub proof fn valid_points_are_calendar_dates(t: Timestamp, secs: i64, v: bool, s: bool)
    requires
        call_ensures(Timestamp::is_valid, (&t,), v),
        call_ensures(Timestamp::is_shiftable, (&t, secs), s),
    ensures
        v <==> -8_334_601_228_800 <= t.secs <= 8_210_266_876_799 && t.nanos < 1_000_000_000,
        s <==> v && -8_334_601_228_800 <= t.secs + secs <= 8_210_266_876_799,
{
}

} // verus!
