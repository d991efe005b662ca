//! Moments in time and session identifiers, with their written forms.

use crate::text::{before, hex_digit};
use vstd::arithmetic::div_mod::{lemma_basic_div, lemma_div_denominator, lemma_fundamental_div_mod};
use vstd::arithmetic::power::{lemma_pow0, lemma_pow_positive, pow};
use vstd::prelude::*;

verus! {

/// A moment: seconds since the Unix epoch, and nanoseconds within the second.
#[derive(Debug, Clone, Copy, PartialEq, Eq, Structural)]
pub struct Timestamp {
    pub secs: i64,
    pub nanos: u32,
}

/// A session identifier.
#[derive(Debug, Clone, Copy, PartialEq, Eq, Structural, Hash)]
pub struct Uuid {
    pub bits: u128,
}

/// Whether a moment lies between the epoch and the end of the year 9999.
pub open spec fn in_calendar(t: Timestamp) -> bool {
    0 <= t.secs < 253_402_300_800 && t.nanos < 1_000_000_000
}

/// Whether `chrono` has a moment: one from the year -262143 to the year
/// 262142, where only the last second of a minute can be a leap second.
pub open spec fn representable(t: Timestamp) -> bool {
    &&& -8_334_601_228_800 <= t.secs < 8_210_266_876_800
    &&& t.nanos < 1_000_000_000 || (t.nanos < 2_000_000_000 && t.secs % 60 == 59)
}

/// How `chrono` writes a moment in RFC 3339; `None` where it has no such
/// moment.
pub uninterp spec fn rfc3339_text(secs: i64, nanos: u32) -> Option<Seq<char>>;

/// What `chrono` reads as a moment from a text: seconds and nanoseconds, or
/// the error's text.
pub uninterp spec fn moment_parse(text: Seq<char>) -> Result<(i64, u32), Seq<char>>;

/// The value of a hexadecimal digit of an identifier; the highest of its 32
/// digits is the first one.
pub open spec fn hex_place(bits: u128, k: int) -> int {
    bits as int / pow(16, (31 - k) as nat) % 16
}

/// Some of the hexadecimal digits of an identifier.
pub open spec fn hex_digits(bits: u128, from: int, to: int) -> Seq<char> {
    Seq::new((to - from) as nat, |i: int| hex_digit(hex_place(bits, from + i) as u8))
}

/// The written form of an identifier: its hexadecimal digits in five groups,
/// with hyphens between them.
pub open spec fn uuid_text(bits: u128) -> Seq<char> {
    hex_digits(bits, 0, 8) + "-"@ + hex_digits(bits, 8, 12) + "-"@ + hex_digits(bits, 12, 16)
        + "-"@ + hex_digits(bits, 16, 20) + "-"@ + hex_digits(bits, 20, 32)
}

/// What the `uuid` crate reads from a text: an identifier, or the error's text.
pub uninterp spec fn uuid_parse(text: Seq<char>) -> Result<u128, Seq<char>>;

/// Whether exactly the moments before a second are written before a text.
pub open spec fn marks_second(text: Seq<char>, secs: i64) -> bool {
    forall|o: Timestamp|
        #![trigger rfc3339_text(o.secs, o.nanos)]
        in_calendar(o) ==> rfc3339_text(o.secs, o.nanos) is Some && (before(
            rfc3339_text(o.secs, o.nanos)->0,
            text,
            0,
        ) <==> o.secs < secs)
}

/// `chrono::Utc::now`: one of the moments that `chrono` has. Nothing else is
/// claimed of the value.
#[verifier::external_body]
pub(crate) fn utc_now() -> (r: Timestamp)
    ensures
        representable(r),
{
    let now = chrono::Utc::now();
    Timestamp { secs: now.timestamp(), nanos: now.timestamp_subsec_nanos() }
}

/// Whether an identifier is marked as a random one: version 4, in the variant
/// of RFC 4122.
pub open spec fn marked_random(bits: u128) -> bool {
    &&& bits / 0x1000_0000_0000_0000_0000 % 16 == 4
    &&& bits / 0x4000_0000_0000_0000 % 4 == 2
}

/// `uuid::Uuid::new_v4`: whatever the random bits are, version and variant
/// mark the identifier as a random one. Nothing else is claimed of the value.
#[verifier::external_body]
pub(crate) fn fresh_uuid() -> (r: Uuid)
    ensures
        marked_random(r.bits),
{
    Uuid { bits: uuid::Uuid::new_v4().as_u128() }
}

/// `chrono::DateTime::to_rfc3339` of what `chrono::DateTime::from_timestamp`
/// gives. Every moment that `chrono` has is written, and reads back as the same
/// moment. Within the calendar, the text of a whole second stands behind those
/// of all earlier moments and of no others.
#[verifier::external_body]
pub(crate) fn write_rfc3339(t: Timestamp) -> (r: Option<String>)
    ensures
        crate::text::opt_text(r) == rfc3339_text(t.secs, t.nanos),
        (r is Some) == representable(t),
        r is Some ==> (moment_parse(r->0@) is Ok && moment_parse(r->0@)->Ok_0 == (
            t.secs,
            t.nanos,
        )),
        in_calendar(t) && t.nanos == 0 ==> marks_second(r->0@, t.secs),
{
    chrono::DateTime::from_timestamp(t.secs, t.nanos).map(|moment| moment.to_rfc3339())
}

/// `FromStr` of `chrono::DateTime<chrono::Utc>`.
#[verifier::external_body]
pub(crate) fn read_moment(text: &str) -> (r: Result<Timestamp, String>)
    ensures
        match r {
            Ok(t) => moment_parse(text@) == Ok::<(i64, u32), Seq<char>>((t.secs, t.nanos)),
            Err(message) => moment_parse(text@) == Err::<(i64, u32), Seq<char>>(message@),
        },
{
    let moment = text.parse::<chrono::DateTime<chrono::Utc>>().map_err(|e| e.to_string())?;
    Ok(Timestamp { secs: moment.timestamp(), nanos: moment.timestamp_subsec_nanos() })
}

/// `uuid::Uuid` with `Display`: the hyphenated form, in lowercase, which reads
/// back as the same identifier.
#[verifier::external_body]
pub(crate) fn write_uuid(id: Uuid) -> (r: String)
    ensures
        r@ == uuid_text(id.bits),
        uuid_parse(r@) is Ok && uuid_parse(r@)->Ok_0 == id.bits,
{
    uuid::Uuid::from_u128(id.bits).to_string()
}

/// `uuid::Uuid::parse_str`.
#[verifier::external_body]
pub(crate) fn read_uuid(text: &str) -> (r: Result<Uuid, String>)
    ensures
        match r {
            Ok(id) => uuid_parse(text@) == Ok::<u128, Seq<char>>(id.bits),
            Err(message) => uuid_parse(text@) == Err::<u128, Seq<char>>(message@),
        },
{
    uuid::Uuid::parse_str(text).map(|id| Uuid { bits: id.as_u128() }).map_err(|e| e.to_string())
}

/// The written form of a moment; empty where the moment has none.
pub open spec fn stamp_text(t: Timestamp) -> Seq<char> {
    match rfc3339_text(t.secs, t.nanos) {
        Some(text) => text,
        None => Seq::empty(),
    }
}

/// The written form of a moment, which reads back as the same moment.
pub fn stamp(t: Timestamp) -> (r: String)
    ensures
        r@ == stamp_text(t),
        representable(t) ==> moment_parse(r@) is Ok && moment_parse(r@)->Ok_0 == (t.secs, t.nanos),
        !representable(t) ==> r@.len() == 0,
        in_calendar(t) && t.nanos == 0 ==> forall|o: Timestamp|
            in_calendar(o) ==> (before(#[trigger] stamp_text(o), r@, 0) <==> o.secs < t.secs),
{
    match write_rfc3339(t) {
        Some(text) => text,
        None => String::new(),
    }
}

impl Uuid {
    /// The identifier with all bits zero.
    pub fn nil() -> (r: Uuid)
        ensures
            r.bits == 0,
    {
        Uuid { bits: 0 }
    }

    /// A fresh random identifier, marked as such by its version and variant.
    /// It is never the nil identifier.
    pub fn new_v4() -> (r: Uuid)
        ensures
            marked_random(r.bits),
            r.bits != 0,
    {
        fresh_uuid()
    }

    /// The written form of the identifier.
    pub fn text(&self) -> (r: String)
        ensures
            r@ == uuid_text(self.bits),
    {
        write_uuid(*self)
    }
}

// ---------------------------------------------------------------------------
// Laws
// ---------------------------------------------------------------------------

proof fn lemma_same_places(a: u128, b: u128, from: int, to: int)
    requires
        0 <= from <= to <= 32,
        hex_digits(a, from, to) == hex_digits(b, from, to),
    ensures
        forall|k: int| from <= k < to ==> #[trigger] hex_place(a, k) == hex_place(b, k),
{
    assert forall|k: int| from <= k < to implies #[trigger] hex_place(a, k) == hex_place(b, k) by {
        assert(hex_digits(a, from, to)[k - from] == hex_digit(hex_place(a, k) as u8));
        assert(hex_digits(b, from, to)[k - from] == hex_digit(hex_place(b, k) as u8));
        lemma_hex_digit_distinct(hex_place(a, k) as u8, hex_place(b, k) as u8);
    }
}

proof fn lemma_hex_digit_distinct(a: u8, b: u8)
    requires
        a < 16,
        b < 16,
        hex_digit(a) == hex_digit(b),
    ensures
        a == b,
{
}

proof fn lemma_same_high_part(a: u128, b: u128, n: nat)
    requires
        n <= 32,
        forall|k: int| 0 <= k < n ==> #[trigger] hex_place(a, k) == hex_place(b, k),
    ensures
        a as int / pow(16, (32 - n) as nat) == b as int / pow(16, (32 - n) as nat),
    decreases n,
{
    if n == 0 {
        assert(pow(16, 32) == 0x1_0000_0000_0000_0000_0000_0000_0000_0000int) by {
            reveal_with_fuel(pow, 33);
        }
        lemma_basic_div(a as int, pow(16, 32));
        lemma_basic_div(b as int, pow(16, 32));
    } else {
        let low = pow(16, (32 - n) as nat);
        lemma_same_high_part(a, b, (n - 1) as nat);
        lemma_pow_positive(16, (32 - n) as nat);
        assert(pow(16, (33 - n) as nat) == low * 16) by {
            reveal_with_fuel(pow, 2);
        }
        lemma_div_denominator(a as int, low, 16);
        lemma_div_denominator(b as int, low, 16);
        assert(hex_place(a, n - 1) == hex_place(b, n - 1));
        lemma_fundamental_div_mod(a as int / low, 16);
        lemma_fundamental_div_mod(b as int / low, 16);
    }
}

/// Two identifiers never have the same written form.
pub proof fn lemma_uuid_text_distinct(a: u128, b: u128)
    requires
        a != b,
    ensures
        uuid_text(a) != uuid_text(b),
{
    if uuid_text(a) == uuid_text(b) {
        let s = uuid_text(a);
        let t = uuid_text(b);
        reveal_strlit("-");
        assert(s.subrange(0, 8) =~= hex_digits(a, 0, 8));
        assert(t.subrange(0, 8) =~= hex_digits(b, 0, 8));
        assert(s.subrange(9, 13) =~= hex_digits(a, 8, 12));
        assert(t.subrange(9, 13) =~= hex_digits(b, 8, 12));
        assert(s.subrange(14, 18) =~= hex_digits(a, 12, 16));
        assert(t.subrange(14, 18) =~= hex_digits(b, 12, 16));
        assert(s.subrange(19, 23) =~= hex_digits(a, 16, 20));
        assert(t.subrange(19, 23) =~= hex_digits(b, 16, 20));
        assert(s.subrange(24, 36) =~= hex_digits(a, 20, 32));
        assert(t.subrange(24, 36) =~= hex_digits(b, 20, 32));
        lemma_same_places(a, b, 0, 8);
        lemma_same_places(a, b, 8, 12);
        lemma_same_places(a, b, 12, 16);
        lemma_same_places(a, b, 16, 20);
        lemma_same_places(a, b, 20, 32);
        lemma_same_high_part(a, b, 32);
        lemma_pow0(16);
    }
}

} // verus!
