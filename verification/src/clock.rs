//! Wall-clock time stamps of chat messages, as `HH:MM:SS` in UTC.

use vstd::prelude::*;
use crate::text::{digits_value, is_digit, push_char, push_zero_padded, spec_decimal, spec_zero_padded};

verus! {

/// The `HH:MM:SS` text (UTC, zero-padded) for `secs` seconds since the Unix
/// epoch.
pub open spec fn spec_clock_text(secs: nat) -> Seq<char> {
    spec_zero_padded((secs % 86400) / 3600, 2) + seq![':'] + spec_zero_padded((secs % 3600) / 60, 2)
        + seq![':'] + spec_zero_padded(secs % 60, 2)
}

/// Renders `secs` (seconds since the Unix epoch) as the `HH:MM:SS` time of
/// day in UTC.
pub fn clock_text(secs: u64) -> (t: String)
    ensures
        t@ == spec_clock_text(secs as nat),
{
    let h = (secs % 86400) / 3600;
    let m = (secs % 3600) / 60;
    let s = secs % 60;
    let mut t = String::new();
    push_zero_padded(&mut t, h, 2);
    push_char(&mut t, ':');
    push_zero_padded(&mut t, m, 2);
    push_char(&mut t, ':');
    push_zero_padded(&mut t, s, 2);
    assert(t@ =~= spec_clock_text(secs as nat));
    t
}

/// The system clock's time type.
#[verifier::external_type_specification]
#[verifier::external_body]
pub struct ExSystemTime(std::time::SystemTime);

/// Reads the system clock (`SystemTime::now`). Nothing is promised of the
/// value: it depends on the time.
#[verifier::external_body]
fn system_now() -> std::time::SystemTime {
    std::time::SystemTime::now()
}

/// Time elapsed from the Unix epoch to `t` (`SystemTime::duration_since`
/// with `UNIX_EPOCH`), `None` where `t` lies before the epoch. Nothing is
/// promised of the value.
#[verifier::external_body]
fn since_epoch(t: &std::time::SystemTime) -> Option<std::time::Duration> {
    t.duration_since(std::time::UNIX_EPOCH).ok()
}

/// Whole seconds of `d` (`Duration::as_secs`). Nothing is promised of the
/// value.
#[verifier::external_body]
fn whole_seconds(d: &std::time::Duration) -> u64 {
    d.as_secs()
}

/// The stamp for a clock reading: `secs` seconds since the Unix epoch, or
/// `None` for a clock set before the epoch, which counts as the epoch
/// itself (`00:00:00`).
pub fn stamp_of(secs: Option<u64>) -> (t: String)
    ensures
        t@ == spec_clock_text(
            match secs {
                Some(s) => s as nat,
                None => 0,
            },
        ),
{
    match secs {
        Some(s) => clock_text(s),
        None => clock_text(0),
    }
}

/// The current time of day, `HH:MM:SS` in UTC, for stamping messages; a
/// clock set before the Unix epoch counts as the epoch (see [`stamp_of`]).
pub fn now() -> (t: String)
    ensures
        exists|secs: u64| t@ == #[trigger] spec_clock_text(secs as nat),
{
    let reading = match since_epoch(&system_now()) {
        Some(d) => Some(whole_seconds(&d)),
        None => None,
    };
    stamp_of(reading)
}

proof fn lemma_two_digits(n: nat)
    requires
        n < 100,
    ensures
        spec_zero_padded(n, 2).len() == 2,
        is_digit(spec_zero_padded(n, 2)[0]),
        is_digit(spec_zero_padded(n, 2)[1]),
        digits_value(spec_zero_padded(n, 2)) == n,
{
    reveal_with_fuel(spec_decimal, 3);
    let p = spec_zero_padded(n, 2);
    let hi: nat = n / 10;
    let lo: nat = n % 10;
    if n < 10 {
        assert(p =~= seq!['0', crate::text::digit_char(n)]);
    } else {
        assert(p =~= seq![crate::text::digit_char(hi), crate::text::digit_char(lo)]);
    }
    assert((crate::text::digit_char(lo) as u32) == lo + 48);
    assert((crate::text::digit_char(hi) as u32) == hi + 48);
    assert(p =~= seq![crate::text::digit_char(hi), crate::text::digit_char(lo)]);
    assert(p.drop_last() =~= seq![crate::text::digit_char(hi)]);
    assert(p.drop_last().drop_last() =~= Seq::<char>::empty());
    assert(digits_value(Seq::<char>::empty()) == 0);
    assert(digits_value(p.drop_last()) == hi);
    assert(digits_value(p) == hi * 10 + lo);
}

/// Every time stamp is eight characters `HH:MM:SS`: two digits for an hour
/// below 24, a colon, two digits for a minute below 60, a colon, and two
/// digits for a second below 60, each field read back as the time of day.
pub proof fn lemma_clock_text_shape(secs: nat)
    ensures
        spec_clock_text(secs).len() == 8,
        spec_clock_text(secs)[2] == ':',
        spec_clock_text(secs)[5] == ':',
        forall|i: int| 0 <= i < 8 && i != 2 && i != 5 ==> is_digit(#[trigger] spec_clock_text(secs)[i]),
        digits_value(spec_clock_text(secs).subrange(0, 2)) == (secs % 86400) / 3600,
        digits_value(spec_clock_text(secs).subrange(3, 5)) == (secs % 3600) / 60,
        digits_value(spec_clock_text(secs).subrange(6, 8)) == secs % 60,
        (secs % 86400) / 3600 < 24,
        (secs % 3600) / 60 < 60,
        secs % 60 < 60,
{
    let h = (secs % 86400) / 3600;
    let m = (secs % 3600) / 60;
    let s = secs % 60;
    lemma_two_digits(h);
    lemma_two_digits(m);
    lemma_two_digits(s);
    let t = spec_clock_text(secs);
    assert(t.subrange(0, 2) =~= spec_zero_padded(h, 2));
    assert(t.subrange(3, 5) =~= spec_zero_padded(m, 2));
    assert(t.subrange(6, 8) =~= spec_zero_padded(s, 2));
}

/// The time stamp depends only on the time of day: instants a whole number
/// of days apart get the same text.
pub proof fn lemma_clock_text_daily(secs: nat, days: nat)
    ensures
        spec_clock_text(secs + days * 86400) == spec_clock_text(secs),
{
    let t = secs + days * 86400;
    vstd::arithmetic::div_mod::lemma_mod_multiples_vanish(days as int, secs as int, 86400);
    vstd::arithmetic::div_mod::lemma_mod_multiples_vanish((days * 24) as int, secs as int, 3600);
    vstd::arithmetic::div_mod::lemma_mod_multiples_vanish((days * 1440) as int, secs as int, 60);
    assert(86400 * days == 3600 * (days * 24)) by (nonlinear_arith);
    assert(86400 * days == 60 * (days * 1440)) by (nonlinear_arith);
    assert(t % 86400 == secs % 86400);
    assert(t % 3600 == secs % 3600);
    assert(t % 60 == secs % 60);
}

} // verus!
