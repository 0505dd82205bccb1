//! The order in which the bodies of a simulation meet each other.
//!
//! Gravity acts between every two bodies. One pass over `n` bodies visits
//! each unordered pair of distinct indices exactly once, the pair with the
//! smaller first index first, and among pairs that share a first index the
//! one with the smaller second index first. [`schedule`] is that order as a
//! sequence, [`PairCursor`] walks it without allocating.

use vstd::prelude::*;

verus! {

/// How many pairs have `i` as their smaller index among `n` bodies.
pub open spec fn row_len(n: nat, i: nat) -> nat {
    if i + 1 < n {
        (n - i - 1) as nat
    } else {
        0
    }
}

/// The pairs `(i, i + 1), (i, i + 2), ..., (i, n - 1)`, in this order.
pub open spec fn row(n: nat, i: nat) -> Seq<(nat, nat)> {
    Seq::new(row_len(n, i), |k: int| (i, (i + 1 + k) as nat))
}

/// The rows `0, 1, ..., upto - 1` of `n` bodies, one after the other.
pub open spec fn rows(n: nat, upto: nat) -> Seq<(nat, nat)>
    decreases upto,
{
    if upto == 0 {
        Seq::empty()
    } else {
        rows(n, (upto - 1) as nat) + row(n, (upto - 1) as nat)
    }
}

/// Every pair `(i, j)` with `i < j < n`, ordered by `i` and then by `j`.
pub open spec fn schedule(n: nat) -> Seq<(nat, nat)> {
    rows(n, n)
}

/// The place of the pair `(i, j)` in the schedule of `n` bodies.
pub open spec fn rank(n: nat, i: nat, j: nat) -> nat {
    (rows(n, i).len() + j - i - 1) as nat
}

/// `a` comes before `b` when pairs are ordered by first index, then by second.
pub open spec fn pair_before(a: (nat, nat), b: (nat, nat)) -> bool {
    a.0 < b.0 || (a.0 == b.0 && a.1 < b.1)
}

/// Rows that start later end later: the first `a` rows are a prefix of the
/// first `b` rows.
pub proof fn lemma_rows_prefix(n: nat, a: nat, b: nat)
    requires
        a <= b,
    ensures
        rows(n, a).len() <= rows(n, b).len(),
        forall|k: int| 0 <= k < rows(n, a).len() ==> rows(n, b)[k] == rows(n, a)[k],
    decreases b,
{
    if a < b {
        lemma_rows_prefix(n, a, (b - 1) as nat);
    }
}

/// Twice the number of pairs among the first `upto` rows, in closed form.
pub proof fn lemma_rows_len(n: nat, upto: nat)
    requires
        upto <= n,
    ensures
        2 * rows(n, upto).len() == upto * (2 * n - upto - 1),
    decreases upto,
{
    if upto > 0 {
        let p = (upto - 1) as nat;
        lemma_rows_len(n, p);
        assert(rows(n, upto).len() == rows(n, p).len() + row_len(n, p));
        assert(upto * (2 * n - upto - 1) == p * (2 * n - p - 1) + 2 * (n - p - 1))
            by (nonlinear_arith)
            requires
                upto == p + 1,
        ;
    } else {
        assert(0 * (2 * n - 0 - 1) == 0) by (nonlinear_arith);
    }
}

/// Among `n` bodies there are `n * (n - 1) / 2` pairs.
pub proof fn lemma_schedule_len(n: nat)
    ensures
        2 * schedule(n).len() == n * (n - 1),
{
    lemma_rows_len(n, n);
    assert(n * (2 * n - n - 1) == n * (n - 1)) by (nonlinear_arith);
}

/// Every pair of distinct indices below `n` has a place in the schedule, and
/// that place is its rank.
pub proof fn lemma_schedule_complete(n: nat, i: nat, j: nat)
    requires
        i < j < n,
    ensures
        rank(n, i, j) < schedule(n).len(),
        schedule(n)[rank(n, i, j) as int] == (i, j),
{
    let k = (j - i - 1) as int;
    assert(row(n, i)[k] == (i, j));
    assert(rows(n, i + 1)[rows(n, i).len() + k] == row(n, i)[k]);
    lemma_rows_prefix(n, i + 1, n);
}

/// What stands at place `k` of the first `upto` rows is a pair of distinct
/// indices, the smaller one first, whose rank is `k`.
proof fn lemma_rows_sound(n: nat, upto: nat, k: int)
    requires
        upto <= n,
        0 <= k < rows(n, upto).len(),
    ensures
        rows(n, upto)[k].0 < rows(n, upto)[k].1 < n,
        rows(n, upto)[k].0 < upto,
        rank(n, rows(n, upto)[k].0, rows(n, upto)[k].1) == k,
    decreases upto,
{
    let p = (upto - 1) as nat;
    if k < rows(n, p).len() {
        lemma_rows_sound(n, p, k);
    } else {
        let off = k - rows(n, p).len();
        assert(rows(n, upto)[k] == row(n, p)[off]);
    }
}

/// Every entry of the schedule is a pair `(i, j)` with `i < j < n`, and it
/// stands at the place its rank names.
pub proof fn lemma_schedule_sound(n: nat, k: int)
    requires
        0 <= k < schedule(n).len(),
    ensures
        schedule(n)[k].0 < schedule(n)[k].1 < n,
        rank(n, schedule(n)[k].0, schedule(n)[k].1) == k,
{
    lemma_rows_sound(n, n, k);
}

/// No pair of bodies meets twice in one pass, in either order of its two
/// indices.
pub proof fn lemma_schedule_once(n: nat, k1: int, k2: int)
    requires
        0 <= k1 < schedule(n).len(),
        0 <= k2 < schedule(n).len(),
        k1 != k2,
    ensures
        schedule(n)[k1] != schedule(n)[k2],
        schedule(n)[k1] != (schedule(n)[k2].1, schedule(n)[k2].0),
{
    lemma_schedule_sound(n, k1);
    lemma_schedule_sound(n, k2);
}

/// The rank grows with the pair: a pair that is ordered before another has
/// the smaller rank.
pub proof fn lemma_rank_monotonic(n: nat, a: (nat, nat), b: (nat, nat))
    requires
        a.0 < a.1 < n,
        b.0 < b.1 < n,
        pair_before(a, b),
    ensures
        rank(n, a.0, a.1) < rank(n, b.0, b.1),
{
    if a.0 < b.0 {
        lemma_rows_prefix(n, a.0 + 1, b.0);
        assert(rows(n, a.0 + 1).len() == rows(n, a.0).len() + row_len(n, a.0));
    }
}

/// The schedule is strictly ascending: an earlier entry is ordered before
/// every later one.
pub proof fn lemma_schedule_ascending(n: nat, k1: int, k2: int)
    requires
        0 <= k1 < k2 < schedule(n).len(),
    ensures
        pair_before(schedule(n)[k1], schedule(n)[k2]),
{
    let a = schedule(n)[k1];
    let b = schedule(n)[k2];
    lemma_schedule_sound(n, k1);
    lemma_schedule_sound(n, k2);
    if !pair_before(a, b) {
        if a != b {
            assert(pair_before(b, a));
            lemma_rank_monotonic(n, b, a);
        }
    }
}

/// A walk over the schedule of a fixed number of bodies.
///
/// The cursor holds the pair it will hand out next. It starts at the first
/// pair and is done once every pair has been handed out.
pub struct PairCursor {
    count: usize,
    first: usize,
    second: usize,
}

impl PairCursor {
    #[verifier::type_invariant]
    spec fn well_formed(self) -> bool {
        &&& self.first < self.second
        &&& self.second >= self.count ==> self.second == self.first + 1
        &&& self.second > self.count ==> self.first == 0
    }

    /// The number of bodies whose pairs the cursor walks.
    pub closed spec fn count(&self) -> nat {
        self.count as nat
    }

    /// How many pairs the cursor has handed out so far.
    pub closed spec fn position(&self) -> nat {
        rank(self.count as nat, self.first as nat, self.second as nat)
    }

    /// A cursor at the start of the schedule of `count` bodies.
    pub fn new(count: usize) -> (cursor: Self)
        ensures
            cursor.count() == count,
            cursor.position() == 0,
    {
        PairCursor { count, first: 0, second: 1 }
    }

    /// Whether every pair has been handed out.
    pub fn is_done(&self) -> (done: bool)
        ensures
            done == (self.position() == schedule(self.count()).len()),
            self.position() <= schedule(self.count()).len(),
    {
        proof {
            use_type_invariant(self);
            self.lemma_position();
        }
        self.second >= self.count
    }

    /// Hands out the next pair of the schedule and moves on, or `None` when
    /// every pair has been handed out; the cursor then stays as it is.
    pub fn fetch_next(&mut self) -> (next: Option<(usize, usize)>)
        ensures
            final(self).count() == old(self).count(),
            final(self).position() <= schedule(old(self).count()).len(),
            match next {
                Some((i, j)) => {
                    &&& old(self).position() < schedule(old(self).count()).len()
                    &&& (i as nat, j as nat) == schedule(old(self).count())[old(self).position() as int]
                    &&& final(self).position() == old(self).position() + 1
                },
                None => {
                    &&& old(self).position() == schedule(old(self).count()).len()
                    &&& *final(self) == *old(self)
                },
            },
    {
        proof {
            use_type_invariant(&*self);
            self.lemma_position();
        }
        if self.second >= self.count {
            return None;
        }
        let i: usize = self.first;
        let j: usize = self.second;
        let ghost n = self.count as nat;
        proof {
            lemma_schedule_complete(n, i as nat, j as nat);
        }
        if j + 1 < self.count {
            self.second = j + 1;
        } else {
            proof {
                assert(rows(n, (i + 1) as nat).len() == rows(n, i as nat).len() + row_len(n, i as nat));
            }
            *self = PairCursor { count: self.count, first: i + 1, second: i + 2 };
        }
        proof {
            self.lemma_position();
        }
        Some((i, j))
    }

    /// A well-formed cursor is at a place of the schedule or at its end, and
    /// at the end exactly when its second index has left the bodies.
    proof fn lemma_position(&self)
        requires
            self.well_formed(),
        ensures
            self.position() <= schedule(self.count()).len(),
            self.second >= self.count <==> self.position() == schedule(self.count()).len(),
    {
        let n = self.count as nat;
        let i = self.first as nat;
        let j = self.second as nat;
        if j < n {
            lemma_schedule_complete(n, i, j);
        } else if n >= 1 {
            assert(i == n - 1);
            assert(rows(n, n).len() == rows(n, i).len() + row_len(n, i));
        } else {
            assert(rows(n, 0).len() == 0);
        }
    }
}

} // verus!
