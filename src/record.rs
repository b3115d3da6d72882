use crate::aggregator::Snapshot;
use crate::window::{nearest, Mean};
use vstd::prelude::*;

verus! {

/// The ASCII character of decimal digit `d`.
pub open spec fn digit_char(d: int) -> u8 {
    (0x30 + d) as u8
}

/// The decimal digits of `n`, most significant first, with no leading zeros.
pub open spec fn decimal(n: nat) -> Seq<u8>
    decreases n,
{
    if n < 10 {
        seq![digit_char(n as int)]
    } else {
        decimal(n / 10).push(digit_char((n % 10) as int))
    }
}

pub open spec fn magnitude(v: int) -> nat {
    if v < 0 {
        (-v) as nat
    } else {
        v as nat
    }
}

/// A value in thousandths written in whole units with three decimals: `-1500` is `-1.500`.
pub open spec fn milli_text(v: int) -> Seq<u8> {
    let m = magnitude(v);
    let sign = if v < 0 {
        seq![0x2du8]
    } else {
        Seq::<u8>::empty()
    };
    sign + decimal(m / 1000) + seq![
        0x2eu8,
        digit_char(((m / 100) % 10) as int),
        digit_char(((m / 10) % 10) as int),
        digit_char((m % 10) as int),
    ]
}

/// A window's average in the record: its mean to the nearest thousandth, or `NaN` while the
/// window is empty.
pub open spec fn field_text(m: Option<Mean>) -> Seq<u8> {
    match m {
        None => seq![0x4eu8, 0x61u8, 0x4eu8],
        Some(v) => milli_text(nearest(v.spec_total() as int, v.spec_count() as int)),
    }
}

/// The record: the short, medium and long averages, in that order, one space between them.
pub open spec fn record_text(s: Snapshot) -> Seq<u8> {
    field_text(s.short) + seq![0x20u8] + field_text(s.medium) + seq![0x20u8] + field_text(s.long)
}

fn push_decimal(out: &mut Vec<u8>, n: u32)
    ensures
        final(out)@ == old(out)@ + decimal(n as nat),
    decreases n,
{
    if n >= 10 {
        push_decimal(out, n / 10);
    }
    out.push((0x30 + n % 10) as u8);
    assert(out@ =~= old(out)@ + decimal(n as nat));
}

fn push_milli(out: &mut Vec<u8>, v: i32)
    ensures
        final(out)@ == old(out)@ + milli_text(v as int),
{
    let m: u32 = if v < 0 {
        (0 - v as i64) as u32
    } else {
        v as u32
    };
    let ghost start = out@;
    if v < 0 {
        out.push(0x2d);
    }
    let ghost signed = out@;
    push_decimal(out, m / 1000);
    out.push(0x2e);
    out.push((0x30 + (m / 100) % 10) as u8);
    out.push((0x30 + (m / 10) % 10) as u8);
    out.push((0x30 + m % 10) as u8);
    assert(out@ =~= start + milli_text(v as int));
}

fn push_field(out: &mut Vec<u8>, m: Option<Mean>)
    ensures
        final(out)@ == old(out)@ + field_text(m),
{
    match m {
        None => {
            out.push(0x4e);
            out.push(0x61);
            out.push(0x4e);
            assert(out@ =~= old(out)@ + field_text(m));
        },
        Some(v) => {
            push_milli(out, v.rounded());
        },
    }
}

/// The text of the persisted record for `s`: the three window averages, short to long, each
/// to three decimals (`NaN` for an empty window), separated by single spaces.
pub fn record_line(s: &Snapshot) -> (r: Vec<u8>)
    ensures
        r@ == record_text(*s),
{
    let mut out: Vec<u8> = Vec::new();
    push_field(&mut out, s.short);
    out.push(0x20);
    push_field(&mut out, s.medium);
    out.push(0x20);
    push_field(&mut out, s.long);
    assert(out@ =~= record_text(*s));
    out
}

} // verus!
