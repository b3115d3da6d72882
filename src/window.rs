use std::collections::VecDeque;
use vstd::prelude::*;

verus! {

/// The exact sum of a sequence of samples.
pub open spec fn sum_of(s: Seq<i32>) -> int
    decreases s.len(),
{
    if s.len() == 0 {
        0
    } else {
        sum_of(s.drop_last()) + s.last()
    }
}

/// The most recent `cap` elements of `s`, oldest first (all of `s` when it is shorter).
pub open spec fn latest(s: Seq<i32>, cap: nat) -> Seq<i32> {
    if s.len() > cap {
        s.subrange(s.len() - cap, s.len() as int)
    } else {
        s
    }
}

/// Splitting off the head: the sum is the first element plus the sum of the rest.
pub proof fn lemma_sum_of_head(s: Seq<i32>)
    requires
        s.len() > 0,
    ensures
        sum_of(s) == s[0] + sum_of(s.subrange(1, s.len() as int)),
    decreases s.len(),
{
    if s.len() == 1 {
        assert(s.drop_last() =~= Seq::<i32>::empty());
        assert(s.subrange(1, 1) =~= Seq::<i32>::empty());
    } else {
        let t = s.drop_last();
        lemma_sum_of_head(t);
        assert(s.subrange(1, s.len() as int).drop_last() =~= t.subrange(1, t.len() as int));
    }
}

/// A sum of `n` samples lies between `n` times the least and `n` times the greatest `i32`.
pub proof fn lemma_sum_of_bounds(s: Seq<i32>)
    ensures
        s.len() * (i32::MIN as int) <= sum_of(s) <= s.len() * (i32::MAX as int),
    decreases s.len(),
{
    if s.len() > 0 {
        lemma_sum_of_bounds(s.drop_last());
    }
}

/// A bounded window over the most recent samples, with a running sum of what it holds.
pub struct Window {
    items: VecDeque<i32>,
    sum: i128,
    capacity: u64,
}

impl View for Window {
    type V = Seq<i32>;

    /// The samples held, oldest first.
    closed spec fn view(&self) -> Seq<i32> {
        self.items@
    }
}

impl Window {
    /// The window holds at most `capacity` samples, `capacity` is at least one, and the running
    /// sum is the exact sum of the samples held.
    pub closed spec fn wf(&self) -> bool {
        &&& self.capacity >= 1
        &&& self.items@.len() <= self.capacity
        &&& self.sum == sum_of(self.items@)
    }

    pub closed spec fn spec_capacity(&self) -> u64 {
        self.capacity
    }

    /// An empty window that keeps the latest `capacity` samples; a capacity of zero is raised
    /// to one, so the window always holds at least the latest sample.
    pub fn new(capacity: u64) -> (w: Window)
        ensures
            w.wf(),
            w@ == Seq::<i32>::empty(),
            w.spec_capacity() == if capacity == 0 { 1 } else { capacity },
    {
        let capacity = if capacity == 0 { 1 } else { capacity };
        Window { items: VecDeque::new(), sum: 0, capacity }
    }

    #[verifier::when_used_as_spec(spec_capacity)]
    pub fn capacity(&self) -> (c: u64)
        ensures
            c == self.spec_capacity(),
    {
        self.capacity
    }

    /// The number of samples held.
    pub fn len(&self) -> (n: usize)
        ensures
            n == self@.len(),
    {
        self.items.len()
    }

    /// The samples held, oldest first.
    pub fn samples(&self) -> (v: Vec<i32>)
        ensures
            v@ == self@,
    {
        let mut v: Vec<i32> = Vec::new();
        let mut i: usize = 0;
        while i < self.items.len()
            invariant
                i <= self.items@.len(),
                v@ == self.items@.subrange(0, i as int),
            decreases self.items@.len() - i,
        {
            v.push(self.items[i]);
            i = i + 1;
            assert(v@ =~= self.items@.subrange(0, i as int));
        }
        assert(v@ =~= self.items@);
        v
    }

    /// The running sum of the samples held.
    pub fn sum(&self) -> (s: i128)
        requires
            self.wf(),
        ensures
            s == sum_of(self@),
    {
        self.sum
    }

    /// Appends `sample` and evicts from the head until at most `capacity` samples remain.
    pub fn push(&mut self, sample: i32)
        requires
            old(self).wf(),
        ensures
            final(self).wf(),
            final(self).spec_capacity() == old(self).spec_capacity(),
            final(self)@ == latest(old(self)@.push(sample), old(self).spec_capacity() as nat),
    {
        let ghost stream = old(self).items@.push(sample);
        let ghost cap = self.capacity as nat;
        self.items.push_back(sample);
        proof {
            assert(self.items@.drop_last() =~= old(self).items@);
            lemma_sum_of_bounds(self.items@);
        }
        self.sum = self.sum + sample as i128;
        while (self.items.len() as u64) > self.capacity
            invariant
                self.capacity == old(self).capacity,
                self.capacity >= 1,
                cap == self.capacity as nat,
                self.sum == sum_of(self.items@),
                latest(self.items@, cap) == latest(stream, cap),
            decreases self.items@.len(),
        {
            let ghost before = self.items@;
            let head = self.items.pop_front();
            if let Some(x) = head {
                proof {
                    lemma_sum_of_head(before);
                    lemma_sum_of_bounds(self.items@);
                    assert(latest(self.items@, cap) =~= latest(before, cap));
                }
                self.sum = self.sum - x as i128;
            }
        }
    }

    /// The mean of the samples held, or `None` while the window is empty.
    pub fn mean(&self) -> (m: Option<Mean>)
        requires
            self.wf(),
        ensures
            mean_of(m, self@),
    {
        let n = self.items.len();
        if n == 0 {
            None
        } else {
            proof {
                lemma_sum_of_bounds(self.items@);
            }
            Some(Mean { total: self.sum, count: n as u64 })
        }
    }
}

/// The ratio `total / count` of a non-empty window, kept exact.
#[derive(Clone, Copy, Debug)]
pub struct Mean {
    total: i128,
    count: u64,
}

/// `m` is the mean of `s`: `None` exactly when `s` is empty, else the exact sum and count of `s`.
pub open spec fn mean_of(m: Option<Mean>, s: Seq<i32>) -> bool {
    match m {
        None => s.len() == 0,
        Some(v) => s.len() > 0 && v.spec_total() == sum_of(s) && v.spec_count() == s.len(),
    }
}

/// `total / count` rounded to the nearest integer, halves rounded up.
pub open spec fn nearest(total: int, count: int) -> int {
    if 2 * (total % count) >= count {
        total / count + 1
    } else {
        total / count
    }
}

impl Mean {
    #[verifier::type_invariant]
    spec fn inv(self) -> bool {
        &&& self.count > 0
        &&& self.count * (i32::MIN as int) <= self.total <= self.count * (i32::MAX as int)
    }

    pub closed spec fn spec_total(&self) -> i128 {
        self.total
    }

    pub closed spec fn spec_count(&self) -> u64 {
        self.count
    }

    /// The sum of the samples averaged.
    #[verifier::when_used_as_spec(spec_total)]
    pub fn total(&self) -> (t: i128)
        ensures
            t == self.spec_total(),
    {
        self.total
    }

    /// The number of samples averaged; never zero.
    #[verifier::when_used_as_spec(spec_count)]
    pub fn count(&self) -> (c: u64)
        ensures
            c == self.spec_count(),
            c > 0,
    {
        proof {
            use_type_invariant(self);
        }
        self.count
    }

    /// The mean rounded to the nearest integer, halves rounded up.
    pub fn rounded(&self) -> (r: i32)
        ensures
            r == nearest(self.spec_total() as int, self.spec_count() as int),
    {
        proof {
            use_type_invariant(self);
        }
        let total = self.total;
        let c = self.count as u128;
        let ghost ci = c as int;
        let q: i128;
        let rem: i128;
        if total >= 0 {
            let t = total as u128;
            proof {
                vstd::arithmetic::div_mod::lemma_fundamental_div_mod(t as int, ci);
            }
            q = (t / c) as i128;
            rem = (t % c) as i128;
            assert(total == q * ci + rem) by (nonlinear_arith)
                requires
                    t == ci * (t as int / ci) + t as int % ci,
                    q == t as int / ci,
                    rem == t as int % ci,
                    total == t,
            ;
        } else {
            let t = (-total) as u128;
            proof {
                vstd::arithmetic::div_mod::lemma_fundamental_div_mod(t as int, ci);
            }
            let tq = (t / c) as i128;
            let tr = (t % c) as i128;
            assert(t == tq * ci + tr) by (nonlinear_arith)
                requires
                    t == ci * (t as int / ci) + t as int % ci,
                    tq == t as int / ci,
                    tr == t as int % ci,
            ;
            if tr == 0 {
                q = -tq;
                rem = 0;
            } else {
                q = -tq - 1;
                rem = c as i128 - tr;
            }
            assert(total == q * ci + rem) by (nonlinear_arith)
                requires
                    -total == tq * ci + tr,
                    (tr == 0 && q == -tq && rem == 0) || (tr != 0 && q == -tq - 1 && rem == ci - tr),
            ;
        }
        proof {
            vstd::arithmetic::div_mod::lemma_fundamental_div_mod_converse(
                total as int,
                ci,
                q as int,
                rem as int,
            );
            assert(i32::MIN <= q <= i32::MAX) by (nonlinear_arith)
                requires
                    total == q * ci + rem,
                    0 <= rem < ci,
                    ci * (i32::MIN as int) <= total <= ci * (i32::MAX as int),
            ;
            assert(q == i32::MAX ==> rem == 0) by (nonlinear_arith)
                requires
                    total == q * ci + rem,
                    0 <= rem < ci,
                    total <= ci * (i32::MAX as int),
            ;
        }
        if 2 * rem >= c as i128 {
            (q + 1) as i32
        } else {
            q as i32
        }
    }
}

} // verus!
