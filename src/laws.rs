use crate::window::{latest, nearest, sum_of};
use vstd::prelude::*;

verus! {

/// Sliding one sample into a window that holds the latest `cap` samples of a stream leaves it
/// holding the latest `cap` samples of the stream extended by that sample: pushing samples one
/// at a time keeps exactly the most recent `cap` samples of the whole stream.
pub proof fn lemma_window_follows_stream(stream: Seq<i32>, sample: i32, cap: nat)
    requires
        cap >= 1,
    ensures
        latest(latest(stream, cap).push(sample), cap) == latest(stream.push(sample), cap),
{
    assert(latest(latest(stream, cap).push(sample), cap) =~= latest(stream.push(sample), cap));
}

/// Once a window of capacity `cap` has seen `cap + 1` samples, the oldest is gone: it holds the
/// other `cap`, and its sum is the sum of all of them less the oldest.
pub proof fn lemma_oldest_evicted(stream: Seq<i32>, cap: nat)
    requires
        stream.len() == cap + 1,
    ensures
        latest(stream, cap) == stream.drop_first(),
        sum_of(latest(stream, cap)) == sum_of(stream) - stream[0],
{
    assert(latest(stream, cap) =~= stream.drop_first());
    crate::window::lemma_sum_of_head(stream);
    assert(stream.subrange(1, stream.len() as int) =~= stream.drop_first());
}

/// A window of capacity `n` fed the same sample `x` `n` times holds those `n` samples, and its
/// mean is exactly `x`.
pub proof fn lemma_constant_stream(x: i32, n: nat)
    requires
        n >= 1,
    ensures
        latest(Seq::new(n, |i: int| x), n) == Seq::new(n, |i: int| x),
        sum_of(Seq::new(n, |i: int| x)) == n * x,
        nearest(sum_of(Seq::new(n, |i: int| x)), n as int) == x,
{
    lemma_constant_sum(x, n);
    assert(n * x == x * n + 0) by (nonlinear_arith);
    vstd::arithmetic::div_mod::lemma_fundamental_div_mod_converse(n * x, n as int, x as int, 0);
}

proof fn lemma_constant_sum(x: i32, n: nat)
    ensures
        sum_of(Seq::new(n, |i: int| x)) == n * x,
    decreases n,
{
    if n > 0 {
        lemma_constant_sum(x, (n - 1) as nat);
        assert(Seq::new(n, |i: int| x).drop_last() =~= Seq::new((n - 1) as nat, |i: int| x));
        assert(n * x == (n - 1) * x + x) by (nonlinear_arith);
    }
}

/// After a single sample, a window of any capacity holds just that sample, and its mean is
/// that sample.
pub proof fn lemma_first_sample(x: i32, cap: nat)
    requires
        cap >= 1,
    ensures
        latest(Seq::<i32>::empty().push(x), cap) == seq![x],
        sum_of(seq![x]) == x,
        nearest(sum_of(seq![x]), 1) == x,
{
    assert(Seq::<i32>::empty().push(x) =~= seq![x]);
    assert(seq![x].drop_last() =~= Seq::<i32>::empty());
    assert(sum_of(Seq::<i32>::empty()) == 0);
    assert(sum_of(seq![x]) == x);
    vstd::arithmetic::div_mod::lemma_fundamental_div_mod_converse(x as int, 1, x as int, 0);
}

} // verus!
