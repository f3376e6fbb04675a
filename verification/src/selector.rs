//! Selector allocation: every named option gets a unique one-byte dispatch
//! selector for the generated getopt loop. Options with an explicit short
//! name keep that character's byte; the rest draw from the pool of bytes
//! 2..=254, ascending from the low end, with `'h'` (help) and every explicit
//! short byte left out.
use crate::item::{NPItemView, NonPositionalItem};
use vstd::prelude::*;
use vstd::string::StrSliceExecFns;

verus! {

/// The abstract values of a sequence of named options.
pub open spec fn np_views(s: Seq<NonPositionalItem>) -> Seq<NPItemView> {
    s.map_values(|x: NonPositionalItem| x@)
}

/// The byte value of an explicit short name: its first character, truncated
/// to a byte as C would store it.
pub open spec fn spec_short_byte(np: NPItemView) -> u8
    recommends
        np.short is Some,
        np.short->0.len() >= 1,
{
    np.short->0[0] as u8
}

/// Every explicit short name holds at least one character (validation
/// guarantees exactly one).
pub open spec fn spec_shorts_wf(nps: Seq<NPItemView>) -> bool {
    forall|i: int|
        0 <= i < nps.len() && (#[trigger] nps[i]).short is Some ==> nps[i].short->0.len() >= 1
}

/// The explicit short bytes, in specification order.
pub open spec fn spec_shorts(nps: Seq<NPItemView>) -> Seq<u8>
    decreases nps.len(),
{
    if nps.len() == 0 {
        Seq::empty()
    } else {
        spec_shorts(nps.drop_last()) + (if nps.last().short is Some {
            seq![spec_short_byte(nps.last())]
        } else {
            Seq::<u8>::empty()
        })
    }
}

/// The bytes `2..b` that are free for automatic allocation, ascending: not
/// `'h'` and not claimed by an explicit short name.
pub open spec fn spec_pool_upto(b: int, shorts: Seq<u8>) -> Seq<u8>
    decreases b,
{
    if b <= 2 {
        Seq::empty()
    } else {
        spec_pool_upto(b - 1, shorts) + (if ((b - 1) as u8) != ('h' as u8) && !shorts.contains(
            (b - 1) as u8,
        ) {
            seq![(b - 1) as u8]
        } else {
            Seq::<u8>::empty()
        })
    }
}

/// The free pool for `nps`: bytes 2..=254 without `'h'` and without the
/// explicit short bytes.
pub open spec fn spec_pool(nps: Seq<NPItemView>) -> Seq<u8> {
    spec_pool_upto(255, spec_shorts(nps))
}

/// How many options lack an explicit short name.
pub open spec fn spec_n_auto(nps: Seq<NPItemView>) -> int
    decreases nps.len(),
{
    if nps.len() == 0 {
        0
    } else {
        spec_n_auto(nps.drop_last()) + (if nps.last().short is None {
            1int
        } else {
            0int
        })
    }
}

/// The free pool is large enough for every option without a short name: the
/// condition under which selector allocation (and hence generation) succeeds.
pub open spec fn spec_can_alloc(nps: Seq<NPItemView>) -> bool {
    spec_n_auto(nps) <= spec_pool(nps).len()
}

/// The selector of the `i`-th option: its explicit short byte, or the next
/// free pool byte, consumed from the low end in specification order.
pub open spec fn spec_selector_at(nps: Seq<NPItemView>, i: int) -> u8 {
    if nps[i].short is Some {
        spec_short_byte(nps[i])
    } else {
        spec_pool(nps)[spec_n_auto(nps.take(i))]
    }
}

pub open spec fn spec_selectors(nps: Seq<NPItemView>) -> Seq<u8> {
    Seq::new(nps.len(), |i: int| spec_selector_at(nps, i))
}

proof fn lemma_n_auto_nonneg(nps: Seq<NPItemView>)
    ensures
        spec_n_auto(nps) >= 0,
    decreases nps.len(),
{
    if nps.len() > 0 {
        lemma_n_auto_nonneg(nps.drop_last());
    }
}

proof fn lemma_n_auto_take_step(nps: Seq<NPItemView>, i: int)
    requires
        0 <= i < nps.len(),
    ensures
        spec_n_auto(nps.take(i + 1)) == spec_n_auto(nps.take(i)) + (if nps[i].short is None {
            1int
        } else {
            0int
        }),
{
    assert(nps.take(i + 1).drop_last() =~= nps.take(i));
    assert(nps.take(i + 1).last() == nps[i]);
}

proof fn lemma_n_auto_take_le(nps: Seq<NPItemView>, i: int)
    requires
        0 <= i <= nps.len(),
    ensures
        spec_n_auto(nps.take(i)) <= spec_n_auto(nps),
    decreases nps.len() - i,
{
    if i == nps.len() {
        assert(nps.take(i) =~= nps);
    } else {
        lemma_n_auto_take_step(nps, i);
        lemma_n_auto_take_le(nps, i + 1);
    }
}

proof fn lemma_n_auto_take_mono(nps: Seq<NPItemView>, a: int, b: int)
    requires
        0 <= a <= b <= nps.len(),
    ensures
        spec_n_auto(nps.take(a)) <= spec_n_auto(nps.take(b)),
    decreases b - a,
{
    if a < b {
        lemma_n_auto_take_step(nps, a);
        lemma_n_auto_take_mono(nps, a + 1, b);
    }
}

proof fn lemma_pool_upto_props(b: int, shorts: Seq<u8>)
    requires
        2 <= b <= 255,
    ensures
        forall|k: int|
            0 <= k < spec_pool_upto(b, shorts).len() ==> 2 <= #[trigger] spec_pool_upto(b, shorts)[k]
                < b && spec_pool_upto(b, shorts)[k] != ('h' as u8) && !shorts.contains(
                spec_pool_upto(b, shorts)[k],
            ),
        forall|k1: int, k2: int|
            0 <= k1 < k2 < spec_pool_upto(b, shorts).len() ==> #[trigger] spec_pool_upto(b, shorts)[k1]
                < #[trigger] spec_pool_upto(b, shorts)[k2],
    decreases b,
{
    if b > 2 {
        lemma_pool_upto_props(b - 1, shorts);
        let prev = spec_pool_upto(b - 1, shorts);
        let cur = spec_pool_upto(b, shorts);
        assert forall|k: int| 0 <= k < cur.len() implies 2 <= #[trigger] cur[k] < b && cur[k] != (
        'h' as u8) && !shorts.contains(cur[k]) by {
            if k < prev.len() {
                assert(cur[k] == prev[k]);
            } else {
                assert(cur[k] == (b - 1) as u8);
            }
        }
        assert forall|k1: int, k2: int| 0 <= k1 < k2 < cur.len() implies #[trigger] cur[k1]
            < #[trigger] cur[k2] by {
            if k2 < prev.len() {
                assert(cur[k1] == prev[k1] && cur[k2] == prev[k2]);
            } else {
                assert(cur[k2] == (b - 1) as u8);
                assert(cur[k1] == prev[k1] && prev[k1] < b - 1);
            }
        }
    }
}

proof fn lemma_shorts_contains(nps: Seq<NPItemView>, i: int)
    requires
        0 <= i < nps.len(),
        nps[i].short is Some,
    ensures
        spec_shorts(nps).contains(spec_short_byte(nps[i])),
    decreases nps.len(),
{
    if i == nps.len() - 1 {
        assert(spec_shorts(nps)[spec_shorts(nps).len() - 1] == spec_short_byte(nps[i]));
    } else {
        let sub = nps.drop_last();
        assert(sub[i] == nps[i]);
        lemma_shorts_contains(sub, i);
        let j = choose|j: int|
            0 <= j < spec_shorts(sub).len() && spec_shorts(sub)[j] == spec_short_byte(sub[i]);
        assert(spec_shorts(nps)[j] == spec_short_byte(nps[i]));
    }
}

proof fn lemma_auto_index_bounds(nps: Seq<NPItemView>, i: int)
    requires
        spec_can_alloc(nps),
        0 <= i < nps.len(),
        nps[i].short is None,
    ensures
        0 <= spec_n_auto(nps.take(i)) < spec_pool(nps).len(),
{
    lemma_n_auto_nonneg(nps.take(i));
    lemma_n_auto_take_step(nps, i);
    lemma_n_auto_take_le(nps, i + 1);
}

/// Selector allocation is injective: under a validated model whose explicit
/// short names are pairwise distinct and none of which is `h`, no two
/// options receive the same selector byte, none receives the help selector
/// `h`, and explicit short names are honored verbatim.
pub proof fn lemma_selectors_injective(nps: Seq<NPItemView>)
    requires
        spec_can_alloc(nps),
        forall|i: int, j: int|
            0 <= i < j < nps.len() && (#[trigger] nps[i]).short is Some && (#[trigger] nps[j]).short
                is Some ==> spec_short_byte(nps[i]) != spec_short_byte(nps[j]),
        forall|i: int|
            0 <= i < nps.len() && (#[trigger] nps[i]).short is Some ==> spec_short_byte(nps[i])
                != ('h' as u8),
    ensures
        forall|i: int|
            0 <= i < nps.len() && (#[trigger] nps[i]).short is Some ==> spec_selector_at(nps, i)
                == spec_short_byte(nps[i]),
        forall|i: int, j: int|
            0 <= i < j < nps.len() ==> spec_selector_at(nps, i) != spec_selector_at(nps, j),
        forall|i: int| 0 <= i < nps.len() ==> #[trigger] spec_selector_at(nps, i) != ('h' as u8),
{
    lemma_pool_upto_props(255, spec_shorts(nps));
    assert forall|i: int| 0 <= i < nps.len() implies #[trigger] spec_selector_at(nps, i) != (
    'h' as u8) by {
        if nps[i].short is None {
            lemma_auto_index_bounds(nps, i);
        }
    }
    assert forall|i: int, j: int| 0 <= i < j < nps.len() implies spec_selector_at(nps, i)
        != spec_selector_at(nps, j) by {
        if nps[i].short is Some && nps[j].short is Some {
        } else if nps[i].short is Some && nps[j].short is None {
            lemma_auto_index_bounds(nps, j);
            lemma_shorts_contains(nps, i);
        } else if nps[i].short is None && nps[j].short is Some {
            lemma_auto_index_bounds(nps, i);
            lemma_shorts_contains(nps, j);
        } else {
            lemma_auto_index_bounds(nps, i);
            lemma_auto_index_bounds(nps, j);
            lemma_n_auto_take_step(nps, i);
            lemma_n_auto_take_mono(nps, i + 1, j);
        }
    }
}

fn contains_byte(v: &Vec<u8>, b: u8) -> (r: bool)
    ensures
        r == v@.contains(b),
{
    let mut i: usize = 0;
    while i < v.len()
        invariant
            0 <= i <= v@.len(),
            forall|j: int| 0 <= j < i ==> v@[j] != b,
        decreases v@.len() - i,
    {
        if v[i] == b {
            proof {
                assert(v@[i as int] == b);
            }
            return true;
        }
        i = i + 1;
    }
    false
}

fn short_byte_of(np: &NonPositionalItem) -> (b: u8)
    requires
        np@.short is Some,
        np@.short->0.len() >= 1,
    ensures
        b == spec_short_byte(np@),
{
    match &np.short {
        Option::Some(s) => {
            let c = s.as_str().get_char(0);
            #[verifier::truncate] (c as u8)
        },
        Option::None => {
            proof {
                assert(false);
            }
            0
        },
    }
}

fn collect_shorts(non_positional: &Vec<NonPositionalItem>) -> (r: Vec<u8>)
    requires
        spec_shorts_wf(np_views(non_positional@)),
    ensures
        r@ == spec_shorts(np_views(non_positional@)),
{
    let ghost nv = np_views(non_positional@);
    let mut r: Vec<u8> = Vec::new();
    let mut i: usize = 0;
    while i < non_positional.len()
        invariant
            0 <= i <= non_positional@.len(),
            nv == np_views(non_positional@),
            nv.len() == non_positional@.len(),
            forall|j: int| 0 <= j < nv.len() ==> #[trigger] nv[j] == non_positional@[j]@,
            r@ =~= spec_shorts(nv.take(i as int)),
        decreases non_positional@.len() - i,
    {
        if non_positional[i].short.is_some() {
            proof {
                assert(nv[i as int] == non_positional@[i as int]@);
                assert(nv[i as int].short is Some);
                assert(nv[i as int].short->0.len() >= 1);
            }
            let b = short_byte_of(&non_positional[i]);
            r.push(b);
        }
        proof {
            assert(nv.take(i + 1).drop_last() =~= nv.take(i as int));
            assert(nv.take(i + 1).last() == nv[i as int]);
            assert(r@ =~= spec_shorts(nv.take(i + 1)));
        }
        i = i + 1;
    }
    proof {
        assert(nv.take(nv.len() as int) =~= nv);
    }
    r
}

fn build_pool(shorts: &Vec<u8>) -> (r: Vec<u8>)
    ensures
        r@ == spec_pool_upto(255, shorts@),
{
    let mut r: Vec<u8> = Vec::new();
    let mut b: u16 = 2;
    while b < 255
        invariant
            2 <= b <= 255,
            r@ =~= spec_pool_upto(b as int, shorts@),
        decreases 255 - b,
    {
        let by = b as u8;
        if by != ('h' as u8) && !contains_byte(shorts, by) {
            r.push(by);
        }
        proof {
            assert(r@ =~= spec_pool_upto(b as int + 1, shorts@));
        }
        b = b + 1;
    }
    r
}

/// Whether the free-selector pool suffices for the options without a short
/// name, i.e. whether generation is possible for this option list.
pub fn can_alloc(non_positional: &Vec<NonPositionalItem>) -> (r: bool)
    requires
        spec_shorts_wf(np_views(non_positional@)),
    ensures
        r == spec_can_alloc(np_views(non_positional@)),
{
    let ghost nv = np_views(non_positional@);
    let shorts = collect_shorts(non_positional);
    let pool = build_pool(&shorts);
    let mut n: usize = 0;
    let mut i: usize = 0;
    while i < non_positional.len()
        invariant
            0 <= i <= non_positional@.len(),
            nv == np_views(non_positional@),
            nv.len() == non_positional@.len(),
            forall|j: int| 0 <= j < nv.len() ==> #[trigger] nv[j] == non_positional@[j]@,
            n <= i,
            n == spec_n_auto(nv.take(i as int)),
        decreases non_positional@.len() - i,
    {
        proof {
            assert(nv.take(i + 1).drop_last() =~= nv.take(i as int));
            assert(nv.take(i + 1).last() == nv[i as int]);
        }
        if non_positional[i].short.is_none() {
            n = n + 1;
        }
        i = i + 1;
    }
    proof {
        assert(nv.take(nv.len() as int) =~= nv);
    }
    n <= pool.len()
}

/// Assigns one dispatch selector byte to every option: the explicit short
/// byte where one was declared, otherwise the next free byte from the low
/// end of the pool.
pub fn alloc_selectors(non_positional: &Vec<NonPositionalItem>) -> (r: Vec<u8>)
    requires
        spec_shorts_wf(np_views(non_positional@)),
        spec_can_alloc(np_views(non_positional@)),
    ensures
        r@ == spec_selectors(np_views(non_positional@)),
{
    let ghost nv = np_views(non_positional@);
    let shorts = collect_shorts(non_positional);
    let pool = build_pool(&shorts);
    let mut r: Vec<u8> = Vec::new();
    let mut k: usize = 0;
    let mut i: usize = 0;
    while i < non_positional.len()
        invariant
            0 <= i <= non_positional@.len(),
            nv == np_views(non_positional@),
            nv.len() == non_positional@.len(),
            forall|j: int| 0 <= j < nv.len() ==> #[trigger] nv[j] == non_positional@[j]@,
            pool@ == spec_pool(nv),
            r@.len() == i,
            k == spec_n_auto(nv.take(i as int)),
            k <= pool@.len(),
            forall|j: int| 0 <= j < i ==> r@[j] == spec_selector_at(nv, j),
        decreases non_positional@.len() - i,
    {
        proof {
            lemma_n_auto_take_step(nv, i as int);
            lemma_n_auto_take_le(nv, i + 1);
        }
        if non_positional[i].short.is_some() {
            proof {
                assert(nv[i as int] == non_positional@[i as int]@);
                assert(nv[i as int].short is Some);
                assert(nv[i as int].short->0.len() >= 1);
            }
            let b = short_byte_of(&non_positional[i]);
            r.push(b);
        } else {
            proof {
                lemma_auto_index_bounds(nv, i as int);
                assert(k < pool@.len());
            }
            r.push(pool[k]);
            let pool_n = pool.len();
            proof {
                assert(k < pool_n);
            }
            k = k + 1;
        }
        i = i + 1;
    }
    proof {
        assert(r@ =~= spec_selectors(nv));
    }
    r
}

} // verus!
