//! The pool of unused short-code numbers.
//!
//! The pool holds the numbers `1..=999_999` in random order. A short code is the
//! base-34 code (`code::gen_code`) of a pool number plus a configured offset;
//! handing out a code takes the number at the front, and a code that is given
//! back (its file expired) puts its number at the back.

use vstd::prelude::*;
use std::collections::VecDeque;
use rand::seq::SliceRandom;
use crate::code::{encode34, decodable, decode34, de_code, gen_code, short_code_roundtrip};

verus! {

/// How many numbers a fresh pool holds.
pub const POOL_SIZE: u32 = 999_999;

/// The offset used when the configuration gives none.
pub const DEFAULT_CODE_BASE: u32 = 1_000_000;

/// The numbers a fresh pool holds, in ascending order: `1..=999_999`.
pub open spec fn initial_codes() -> Seq<u32> {
    Seq::new(POOL_SIZE as nat, |i: int| (i + 1) as u32)
}

/// The pool numbers that `init_once` keeps: those whose code number
/// (`x + base`) is not in `taken`.
pub open spec fn kept_by(taken: Seq<u32>, base: u32) -> spec_fn(u32) -> bool {
    |x: u32| !taken.contains((x + base) as u32)
}

/// Every pool number plus the offset fits in a `u32`.
pub open spec fn offsets_fit(codes: Seq<u32>, base: u32) -> bool {
    forall|k: int| 0 <= k < codes.len() ==> #[trigger] codes[k] + base <= u32::MAX
}

/// Puts `values` in a random order (rand's `SliceRandom::shuffle` with `thread_rng`).
/// Trusted: the shuffle only swaps elements, so the result holds the same values
/// the same number of times; which order comes out is left open.
#[verifier::external_body]
fn shuffle_values(values: &mut Vec<u32>)
    ensures
        final(values)@.len() == old(values)@.len(),
        final(values)@.to_multiset() == old(values)@.to_multiset(),
{
    values.shuffle(&mut rand::thread_rng());
}

proof fn lemma_shuffled_pool(s: Seq<u32>)
    requires
        s.to_multiset() == initial_codes().to_multiset(),
    ensures
        s.no_duplicates(),
        forall|k: int| 0 <= k < s.len() ==> 1 <= #[trigger] s[k] <= POOL_SIZE,
{
    broadcast use vstd::seq_lib::group_to_multiset_ensures;

    let init = initial_codes();
    assert(init.no_duplicates());
    init.lemma_multiset_has_no_duplicates();
    s.lemma_multiset_has_no_duplicates_conv();
    assert forall|k: int| 0 <= k < s.len() implies 1 <= #[trigger] s[k] <= POOL_SIZE by {
        assert(s.contains(s[k]));
        assert(init.to_multiset().count(s[k]) > 0);
        assert(init.contains(s[k]));
    }
}

fn contains_value(values: &Vec<u32>, x: u32) -> (res: bool)
    ensures
        res == values@.contains(x),
{
    let mut i: usize = 0;
    while i < values.len()
        invariant
            i <= values.len(),
            forall|k: int| 0 <= k < i ==> values@[k] != x,
        decreases values.len() - i,
    {
        if values[i] == x {
            assert(values@[i as int] == x);
            return true;
        }
        i = i + 1;
    }
    false
}

/// A pool of short-code numbers, handed out from the front and given back at the back.
pub struct RandomDeque {
    deque: VecDeque<u32>,
    base_plus: u32,
    init: bool,
}

impl RandomDeque {
    /// The pool numbers, front first.
    pub closed spec fn codes(&self) -> Seq<u32> {
        self.deque@
    }

    /// The offset added to a pool number to make a code number.
    pub closed spec fn base(&self) -> u32 {
        self.base_plus
    }

    /// Whether `init_once` has already run.
    pub closed spec fn initialized(&self) -> bool {
        self.init
    }

    /// A fresh pool: the numbers `1..=999_999` in random order, with the
    /// configured offset (`short_code_base`, or 1_000_000 where none is
    /// configured), not yet initialized.
    pub fn new(short_code_base: Option<u32>) -> (res: Self)
        ensures
            res.codes().len() == POOL_SIZE,
            res.codes().to_multiset() == initial_codes().to_multiset(),
            res.codes().no_duplicates(),
            forall|k: int| 0 <= k < res.codes().len() ==> 1 <= #[trigger] res.codes()[k] <= POOL_SIZE,
            res.base() == (match short_code_base {
                Some(b) => b,
                None => DEFAULT_CODE_BASE,
            }),
            !res.initialized(),
    {
        let mut temp: Vec<u32> = Vec::new();
        let mut i: u32 = 1;
        while i <= POOL_SIZE
            invariant
                1 <= i <= POOL_SIZE + 1,
                temp@ == Seq::new((i - 1) as nat, |k: int| (k + 1) as u32),
            decreases POOL_SIZE + 1 - i,
        {
            temp.push(i);
            i = i + 1;
            assert(temp@ =~= Seq::new((i - 1) as nat, |k: int| (k + 1) as u32));
        }
        assert(temp@ =~= initial_codes());
        shuffle_values(&mut temp);
        let mut deque: VecDeque<u32> = VecDeque::new();
        let mut j: usize = 0;
        while j < temp.len()
            invariant
                j <= temp.len(),
                deque@ == temp@.take(j as int),
            decreases temp.len() - j,
        {
            deque.push_back(temp[j]);
            j = j + 1;
            assert(deque@ =~= temp@.take(j as int));
        }
        assert(temp@.take(j as int) =~= temp@);
        proof {
            lemma_shuffled_pool(temp@);
        }
        let base_plus = match short_code_base {
            Some(b) => b,
            None => DEFAULT_CODE_BASE,
        };
        RandomDeque { deque, base_plus, init: false }
    }

    /// The offset added to a pool number to make a code number.
    pub fn base_plus(&self) -> (res: u32)
        ensures
            res == self.base(),
    {
        self.base_plus
    }

    /// The number `get_random_num` would hand out next, if the pool is not empty.
    pub fn next_number(&self) -> (res: Option<u32>)
        ensures
            res == (if self.codes().len() > 0 {
                Some(self.codes()[0])
            } else {
                None
            }),
    {
        if self.deque.len() > 0 {
            Some(self.deque[0])
        } else {
            None
        }
    }

    /// Whether every pool number plus the offset fits in a `u32` (what
    /// `init_once` needs on its first call).
    pub fn offsets_fit(&self) -> (res: bool)
        ensures
            res == offsets_fit(self.codes(), self.base()),
    {
        let n = self.deque.len();
        let mut i: usize = 0;
        while i < n
            invariant
                n == self.deque@.len(),
                i <= n,
                forall|k: int| 0 <= k < i ==> #[trigger] self.deque@[k] + self.base_plus <= u32::MAX,
            decreases n - i,
        {
            if self.deque[i] > u32::MAX - self.base_plus {
                assert(self.deque@[i as int] + self.base_plus > u32::MAX);
                return false;
            }
            i = i + 1;
        }
        true
    }

    /// Whether `init_once` has already run. Changes nothing.
    pub fn is_init(&mut self) -> (res: bool)
        ensures
            res == old(self).initialized(),
            *final(self) == *old(self),
    {
        self.init
    }

    /// On its first call, drops from the pool every number whose code number
    /// (number plus offset) is in `remove_vec` (codes already in use), and marks
    /// the pool initialized. Later calls change nothing.
    pub fn init_once(&mut self, remove_vec: Vec<u32>)
        requires
            old(self).initialized() || offsets_fit(old(self).codes(), old(self).base()),
        ensures
            old(self).initialized() ==> *final(self) == *old(self),
            !old(self).initialized() ==> final(self).codes() == old(self).codes().filter(
                kept_by(remove_vec@, old(self).base()),
            ),
            !old(self).initialized() ==> forall|x: u32|
                #[trigger] old(self).codes().contains(x) ==> (final(self).codes().contains(x)
                    <==> !remove_vec@.contains((x + old(self).base()) as u32)),
            !old(self).initialized() ==> forall|x: u32|
                #[trigger] final(self).codes().contains(x) ==> old(self).codes().contains(x),
            final(self).base() == old(self).base(),
            final(self).initialized(),
    {
        proof {
            if !old(self).init {
                init_keeps_exactly_untaken(old(self).deque@, remove_vec@, old(self).base_plus);
            }
        }
        if !self.init {
            let ghost orig = self.deque@;
            let ghost pred = kept_by(remove_vec@, self.base_plus);
            let n = self.deque.len();
            let mut kept: VecDeque<u32> = VecDeque::new();
            let mut i: usize = 0;
            while i < n
                invariant
                    n == orig.len(),
                    i <= n,
                    self.base_plus == old(self).base_plus,
                    orig == old(self).deque@,
                    offsets_fit(orig, self.base_plus),
                    pred == kept_by(remove_vec@, self.base_plus),
                    self.deque@ == orig.skip(i as int),
                    kept@ == orig.take(i as int).filter(pred),
                decreases n - i,
            {
                let ghost before = self.deque@;
                let x: u32 = match self.deque.pop_front() {
                    Some(x) => x,
                    None => 0,
                };
                assert(x == orig[i as int]);
                assert(orig[i as int] + self.base_plus <= u32::MAX);
                let taken = contains_value(&remove_vec, x + self.base_plus);
                if !taken {
                    kept.push_back(x);
                }
                proof {
                    reveal_with_fuel(Seq::filter, 1);
                    assert(orig.take(i + 1).drop_last() =~= orig.take(i as int));
                    assert(orig.take(i + 1).last() == x);
                }
                i = i + 1;
                assert(self.deque@ =~= orig.skip(i as int));
            }
            assert(orig.take(n as int) =~= orig);
            self.deque = kept;
            self.init = true;
        }
    }

    /// Hands out the short code of the number at the front of the pool (plus the
    /// offset), and removes that number from the pool.
    pub fn get_random_num(&mut self) -> (res: String)
        requires
            old(self).codes().len() > 0,
            old(self).codes()[0] + old(self).base() <= u32::MAX,
        ensures
            res@ == encode34((old(self).codes()[0] + old(self).base()) as nat),
            final(self).codes() == old(self).codes().drop_first(),
            final(self).base() == old(self).base(),
            final(self).initialized() == old(self).initialized(),
    {
        let x: u32 = match self.deque.pop_front() {
            Some(x) => x,
            None => 0,
        };
        assert(self.deque@ =~= old(self).codes().drop_first());
        gen_code(x + self.base_plus)
    }

    /// Gives a short code back: its number, less the offset, goes to the back of the pool.
    pub fn push_random_num(&mut self, num_str: &str)
        requires
            decodable(num_str@),
            decode34(num_str@) >= old(self).base(),
        ensures
            final(self).codes() == old(self).codes().push((decode34(num_str@) - old(self).base()) as u32),
            final(self).base() == old(self).base(),
            final(self).initialized() == old(self).initialized(),
    {
        let n = de_code(num_str);
        self.deque.push_back(n - self.base_plus);
    }
}

/// Law: a code handed out and later given back returns its number to the pool.
/// The code that `get_random_num` makes for pool number `front` is one that
/// `push_random_num` accepts, and it puts `front` itself back.
pub proof fn returned_code_restores_number(front: u32, base: u32)
    requires
        front + base <= u32::MAX,
    ensures
        decodable(encode34((front + base) as nat)),
        decode34(encode34((front + base) as nat)) >= base,
        decode34(encode34((front + base) as nat)) - base == front,
{
    short_code_roundtrip((front + base) as u32);
}


/// Law: after `init_once`, the pool hands out no code that was listed as taken,
/// and every number left was in the pool before.
pub proof fn initialized_pool_avoids_taken(codes: Seq<u32>, taken: Seq<u32>, base: u32)
    requires
        offsets_fit(codes, base),
    ensures
        forall|k: int|
            0 <= k < codes.filter(kept_by(taken, base)).len() ==> !taken.contains(
                (#[trigger] codes.filter(kept_by(taken, base))[k] + base) as u32,
            ) && codes.contains(codes.filter(kept_by(taken, base))[k]),
{
    let kept = codes.filter(kept_by(taken, base));
    assert forall|k: int| 0 <= k < kept.len() implies !taken.contains(
        (#[trigger] kept[k] + base) as u32,
    ) && codes.contains(kept[k]) by {
        codes.lemma_filter_pred(kept_by(taken, base), k);
        codes.lemma_filter_contains_rev(kept_by(taken, base), kept[k]);
    }
}

/// Law: the first `init_once` keeps a pool number exactly when its code number
/// (number plus offset) is not among the taken ones: every number whose code is
/// free stays, every number whose code is taken goes, nothing new comes in, and
/// a pool without repeats stays without repeats.
pub proof fn init_keeps_exactly_untaken(codes: Seq<u32>, taken: Seq<u32>, base: u32)
    requires
        offsets_fit(codes, base),
    ensures
        forall|x: u32|
            #[trigger] codes.filter(kept_by(taken, base)).contains(x) <==> (codes.contains(x)
                && x + base <= u32::MAX && !taken.contains((x + base) as u32)),
        codes.no_duplicates() ==> codes.filter(kept_by(taken, base)).no_duplicates(),
{
    let pred = kept_by(taken, base);
    let kept = codes.filter(pred);
    assert forall|x: u32| #[trigger] kept.contains(x) <==> (codes.contains(x) && x + base <= u32::MAX
        && !taken.contains((x + base) as u32)) by {
        if kept.contains(x) {
            codes.lemma_filter_contains_rev(pred, x);
            let k = choose|k: int| 0 <= k < kept.len() && kept[k] == x;
            codes.lemma_filter_pred(pred, k);
            let j = choose|j: int| 0 <= j < codes.len() && codes[j] == x;
            assert(codes[j] + base <= u32::MAX);
        }
        if codes.contains(x) && x + base <= u32::MAX && !taken.contains((x + base) as u32) {
            let j = choose|j: int| 0 <= j < codes.len() && codes[j] == x;
            codes.lemma_filter_contains(pred, j);
        }
    }
    if codes.no_duplicates() {
        lemma_filter_no_duplicates(codes, pred);
    }
}

proof fn lemma_filter_no_duplicates(s: Seq<u32>, pred: spec_fn(u32) -> bool)
    requires
        s.no_duplicates(),
    ensures
        s.filter(pred).no_duplicates(),
    decreases s.len(),
{
    if s.len() > 0 {
        let rest = s.drop_last();
        assert(rest.no_duplicates());
        lemma_filter_no_duplicates(rest, pred);
        reveal_with_fuel(Seq::filter, 1);
        if pred(s.last()) {
            let f = rest.filter(pred);
            assert(!f.contains(s.last())) by {
                if f.contains(s.last()) {
                    rest.lemma_filter_contains_rev(pred, s.last());
                    let j = choose|j: int| 0 <= j < rest.len() && rest[j] == s.last();
                    assert(s[j] == s[s.len() - 1]);
                }
            }
            assert(s.filter(pred) == f.push(s.last()));
            assert forall|a: int, b: int| 0 <= a < f.push(s.last()).len() && 0 <= b < f.push(s.last()).len() && a != b
                implies f.push(s.last())[a] != f.push(s.last())[b] by {
                if a == f.len() as int {
                    assert(f.contains(f[b]));
                } else if b == f.len() as int {
                    assert(f.contains(f[a]));
                }
            }
        }
    }
}

/// Law: handing out the code at the front of the pool and taking that code back
/// moves its number from the front to the back; the pool holds the same numbers
/// as before.
pub proof fn hand_out_and_return(codes: Seq<u32>, base: u32)
    requires
        codes.len() > 0,
        codes[0] + base <= u32::MAX,
    ensures
        codes.drop_first().push((decode34(encode34((codes[0] + base) as nat)) - base) as u32)
            == codes.drop_first().push(codes[0]),
        codes.drop_first().push(codes[0]).to_multiset() == codes.to_multiset(),
{
    broadcast use vstd::seq_lib::group_to_multiset_ensures;
    broadcast use vstd::multiset::group_multiset_axioms;

    returned_code_restores_number(codes[0], base);
    assert(codes.drop_first() =~= codes.remove(0));
    assert(codes.to_multiset().count(codes[0]) > 0) by {
        assert(codes.contains(codes[0]));
    }
    assert(codes.remove(0).to_multiset().insert(codes[0]) =~= codes.to_multiset());
}

/// Law: a pool without repeated numbers hands out a different code on each of
/// two successive calls, and stays without repeated numbers.
pub proof fn successive_codes_differ(codes: Seq<u32>, base: u32)
    requires
        codes.no_duplicates(),
        codes.len() >= 2,
        codes[0] + base <= u32::MAX,
        codes[1] + base <= u32::MAX,
    ensures
        encode34((codes[0] + base) as nat) != encode34((codes[1] + base) as nat),
        codes.drop_first().no_duplicates(),
{
    crate::code::short_codes_distinct((codes[0] + base) as u32, (codes[1] + base) as u32);
}
} // verus!
