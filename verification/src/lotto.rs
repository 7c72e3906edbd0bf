//! The draw engine: a freshly built pool of the integers `1..=N`, shuffled by
//! the shared generator, from which the first `min(K, N)` elements are taken.

use vstd::prelude::*;

verus! {

/// The pool as first built: the sequence `[1, 2, ..., n]`.
pub open spec fn pool_seq(n: nat) -> Seq<u32> {
    Seq::new(n, |i: int| (i + 1) as u32)
}

/// One draw's pool: the candidate integers `1..=N`, built fresh per draw and
/// shuffled in place before selection.
pub struct Lotto {
    pub pot: Vec<u32>,
}

impl View for Lotto {
    type V = Seq<u32>;

    open spec fn view(&self) -> Seq<u32> {
        self.pot@
    }
}

/// Any sequence holding exactly the contents of the pool `1..=n` — in
/// whatever order a shuffle left them — has length `n`, repeats no value,
/// and every value lies in `[1, n]`.
pub proof fn lemma_pool_permutation(s: Seq<u32>, n: nat)
    requires
        n <= u32::MAX,
        s.to_multiset() == pool_seq(n).to_multiset(),
    ensures
        s.len() == n,
        s.no_duplicates(),
        forall|i: int| 0 <= i < s.len() ==> 1 <= #[trigger] s[i] <= n,
{
    let p = pool_seq(n);
    p.to_multiset_ensures();
    s.to_multiset_ensures();
    assert forall|i: int, j: int|
        0 <= i < p.len() && 0 <= j < p.len() && i != j implies p[i] != p[j] by {
        assert(p[i] == i + 1);
        assert(p[j] == j + 1);
    }
    assert(p.no_duplicates());
    p.lemma_multiset_has_no_duplicates();
    s.lemma_multiset_has_no_duplicates_conv();
    assert forall|i: int| 0 <= i < s.len() implies 1 <= #[trigger] s[i] <= n by {
        assert(s.contains(s[i]));
        assert(s.to_multiset().count(s[i]) > 0);
        assert(p.to_multiset().count(s[i]) > 0);
        assert(p.contains(s[i]));
        let k = choose|k: int| 0 <= k < p.len() && p[k] == s[i];
        assert(p[k] == k + 1);
    }
}

impl Lotto {
    /// The pool invariant: its contents are exactly the integers `1..=N`,
    /// each once, in some order.
    pub open spec fn wf(self) -> bool {
        &&& self@.len() <= u32::MAX
        &&& self@.to_multiset() == pool_seq(self@.len()).to_multiset()
    }

    /// Builds the pool `[1, 2, ..., pot_size]` (empty when `pot_size` is 0).
    pub fn new(pot_size: u32) -> (lotto: Lotto)
        ensures
            lotto@ == pool_seq(pot_size as nat),
            lotto.wf(),
    {
        let mut pot: Vec<u32> = Vec::new();
        let mut i: u32 = 0;
        while i < pot_size
            invariant
                i <= pot_size,
                pot@.len() == i as nat,
                forall|j: int| 0 <= j < i ==> pot@[j] == j + 1,
            decreases pot_size - i,
        {
            i = i + 1;
            pot.push(i);
        }
        proof {
            assert(pot@ =~= pool_seq(pot_size as nat));
        }
        Lotto { pot }
    }

    /// Shuffles the whole pool with the supplied generator, then returns its
    /// first `min(amount, N)` elements in post-shuffle order. Total: every
    /// `(N, K)` pair yields a result, degenerate ones an empty or truncated
    /// one. The result repeats no value, every value lies in `[1, N]`, and
    /// when `amount >= N` it is a full permutation of the pool.
    ///
    /// The generator is borrowed exclusively for the one shuffle: a caller
    /// sharing it across tasks must hold its lock for the whole call.
    pub fn take(&mut self, amount: usize, rng: &mut rand::rngs::SmallRng) -> (result: Vec<u32>)
        requires
            old(self).wf(),
        ensures
            final(self).wf(),
            final(self)@.to_multiset() == old(self)@.to_multiset(),
            final(self)@.len() == old(self)@.len(),
            result@.len() == vstd::math::min(amount as int, old(self)@.len() as int),
            result@ == final(self)@.subrange(0, result@.len() as int),
            result@.no_duplicates(),
            forall|i: int| 0 <= i < result@.len() ==> 1 <= #[trigger] result@[i] <= old(self)@.len(),
            amount >= old(self)@.len() ==> result@.to_multiset() == pool_seq(
                old(self)@.len(),
            ).to_multiset(),
    {
        let ghost n = self.pot@.len();
        crate::rng::shuffle(&mut self.pot, rng);
        proof {
            lemma_pool_permutation(self.pot@, n);
        }
        let count: usize = if amount < self.pot.len() {
            amount
        } else {
            self.pot.len()
        };
        let mut result: Vec<u32> = Vec::new();
        let mut idx: usize = 0;
        while idx < count
            invariant
                idx <= count,
                count <= self.pot@.len(),
                result@ == self.pot@.subrange(0, idx as int),
            decreases count - idx,
        {
            let v = self.pot[idx];
            result.push(v);
            idx = idx + 1;
            proof {
                assert(result@ =~= self.pot@.subrange(0, idx as int));
            }
        }
        proof {
            let s = self.pot@;
            assert forall|i: int, j: int|
                0 <= i < result@.len() && 0 <= j < result@.len() && i != j implies result@[i]
                != result@[j] by {
                assert(result@[i] == s[i]);
                assert(result@[j] == s[j]);
            }
            assert forall|i: int| 0 <= i < result@.len() implies 1 <= #[trigger] result@[i]
                <= n by {
                assert(result@[i] == s[i]);
            }
            if amount >= n {
                assert(result@ =~= s);
            }
        }
        result
    }
}

/// One complete draw, as a request handler uses it: build the pool
/// `1..=pot_size`, shuffle it with the supplied generator, and return the
/// first `min(amount, pot_size)` values in post-shuffle order.
pub fn draw(pot_size: u32, amount: usize, rng: &mut rand::rngs::SmallRng) -> (result: Vec<u32>)
    ensures
        result@.len() == vstd::math::min(amount as int, pot_size as int),
        result@.no_duplicates(),
        forall|i: int| 0 <= i < result@.len() ==> 1 <= #[trigger] result@[i] <= pot_size,
        amount >= pot_size ==> result@.to_multiset() == pool_seq(pot_size as nat).to_multiset(),
        pot_size == 0 ==> result@ == Seq::<u32>::empty(),
        amount == 0 ==> result@ == Seq::<u32>::empty(),
{
    let mut lotto = Lotto::new(pot_size);
    let result = lotto.take(amount, rng);
    proof {
        if pot_size == 0 || amount == 0 {
            assert(result@ =~= Seq::<u32>::empty());
        }
    }
    result
}

} // verus!
