//! Price ladders and the units in which the stream's decimals are held.
//!
//! Prices and sizes, and the amounts summed from them, are decimals with two
//! places, held as whole hundredths. A decimal that is only stored and
//! compared (a handicap, an adjustment factor, a starting or last traded
//! price, a base rate, an each-way divisor) is held as an order-preserving
//! integer key of its floating-point bits: the bits with the sign bit
//! flipped for a non-negative number, all bits flipped for a negative one,
//! with negative zero read as zero. Two keys are equal exactly when the
//! numbers are (NaN aside), and a zero `f64` has the key
//! `0x8000_0000_0000_0000`.

use vstd::prelude::*;

verus! {

/// One level of a price ladder.
///
/// Prices and sizes are decimal amounts with two places, held as whole
/// hundredths (a price of 2.5 is `250`, a size of 10.0 is `1000`). A size of
/// `0` in an update removes the price level.
#[derive(Clone, Copy, Debug, PartialEq, Eq, Structural)]
pub struct PriceSize {
    pub price: u64,
    pub size: u64,
}

impl PriceSize {
    pub fn new(price: u64, size: u64) -> (r: Self)
        ensures
            r.price == price,
            r.size == size,
    {
        PriceSize { price, size }
    }
}

/// `a` stands before `b` in a ladder kept in the given direction.
pub open spec fn ordered_before(ascending: bool, a: u64, b: u64) -> bool {
    if ascending {
        a < b
    } else {
        a > b
    }
}

/// A ladder: its prices strictly ascending (or strictly descending).
pub open spec fn is_ladder(s: Seq<PriceSize>, ascending: bool) -> bool {
    forall|i: int, j: int|
        0 <= i < j < s.len() ==> ordered_before(ascending, #[trigger] s[i].price, #[trigger] s[j].price)
}

pub open spec fn has_price(s: Seq<PriceSize>, p: u64) -> bool {
    exists|i: int| 0 <= i < s.len() && #[trigger] s[i].price == p
}

/// The ladder read as a map from price to size.
#[verifier::opaque]
pub open spec fn ladder_map(s: Seq<PriceSize>) -> Map<u64, u64> {
    Map::new(
        |p: u64| has_price(s, p),
        |p: u64| s[choose|i: int| 0 <= i < s.len() && #[trigger] s[i].price == p].size,
    )
}

/// What one update does to a ladder: a size of zero removes the price,
/// any other size sets it.
pub open spec fn apply_update(m: Map<u64, u64>, u: PriceSize) -> Map<u64, u64> {
    if u.size == 0 {
        m.remove(u.price)
    } else {
        m.insert(u.price, u.size)
    }
}

/// The updates applied one after another, first to last.
pub open spec fn apply_updates(m: Map<u64, u64>, us: Seq<PriceSize>) -> Map<u64, u64>
    decreases us.len(),
{
    if us.len() == 0 {
        m
    } else {
        apply_update(apply_updates(m, us.drop_last()), us.last())
    }
}

/// Updates applied in two batches give the ladder that the two batches
/// applied as one gives.
pub proof fn lemma_updates_compose(m: Map<u64, u64>, a: Seq<PriceSize>, b: Seq<PriceSize>)
    ensures
        apply_updates(apply_updates(m, a), b) == apply_updates(m, a + b),
    decreases b.len(),
{
    if b.len() == 0 {
        assert(a + b =~= a);
    } else {
        lemma_updates_compose(m, a, b.drop_last());
        assert((a + b).drop_last() =~= a + b.drop_last());
        assert((a + b).last() == b.last());
    }
}

/// A ladder holds no price with a zero size: updates keep it so.
pub proof fn lemma_no_zero_sizes(m: Map<u64, u64>, us: Seq<PriceSize>)
    requires
        forall|p: u64| m.contains_key(p) ==> m[p] != 0,
    ensures
        forall|p: u64| #[trigger] apply_updates(m, us).contains_key(p) ==> apply_updates(m, us)[p] != 0,
    decreases us.len(),
{
    if us.len() > 0 {
        lemma_no_zero_sizes(m, us.drop_last());
        let before = apply_updates(m, us.drop_last());
        let u = us.last();
        assert forall|p: u64| #[trigger] apply_updates(m, us).contains_key(p) implies apply_updates(m, us)[p] != 0 by {
            assert(apply_updates(m, us) == apply_update(before, u));
            if p != u.price {
                assert(before.contains_key(p));
            }
        }
    }
}

/// Of two updates of the same price, the later one decides: a ladder after
/// both is the ladder after the later alone.
pub proof fn lemma_later_update_wins(m: Map<u64, u64>, p: u64, first: u64, second: u64)
    ensures
        apply_update(apply_update(m, PriceSize { price: p, size: first }), PriceSize { price: p, size: second })
            == apply_update(m, PriceSize { price: p, size: second }),
{
    assert(apply_update(apply_update(m, PriceSize { price: p, size: first }), PriceSize { price: p, size: second })
        =~= apply_update(m, PriceSize { price: p, size: second }));
}

/// The ladder of a sequence of prices in the given direction: the unique
/// sorted sequence whose map is `m`.
pub open spec fn ladder_of(s: Seq<PriceSize>, ascending: bool, m: Map<u64, u64>) -> bool {
    is_ladder(s, ascending) && ladder_map(s) == m
}

pub proof fn lemma_ladder_map_at(s: Seq<PriceSize>, ascending: bool, i: int)
    requires
        is_ladder(s, ascending),
        0 <= i < s.len(),
    ensures
        ladder_map(s).dom().contains(s[i].price),
        ladder_map(s)[s[i].price] == s[i].size,
{
    reveal(ladder_map);
    let p = s[i].price;
    assert(has_price(s, p));
    let j = choose|j: int| 0 <= j < s.len() && #[trigger] s[j].price == p;
    if j < i {
        assert(ordered_before(ascending, s[j].price, s[i].price));
    } else if i < j {
        assert(ordered_before(ascending, s[i].price, s[j].price));
    }
}

proof fn lemma_ladder_map_values(s: Seq<PriceSize>, ascending: bool)
    requires
        is_ladder(s, ascending),
    ensures
        forall|i: int| #![trigger s[i]]
            0 <= i < s.len() ==> ladder_map(s).dom().contains(s[i].price) && ladder_map(s)[s[i].price]
                == s[i].size,
        forall|p: u64| #[trigger] ladder_map(s).dom().contains(p) <==> has_price(s, p),
{
    reveal(ladder_map);
    assert forall|i: int| #![trigger s[i]] 0 <= i < s.len() implies ladder_map(s).dom().contains(
        s[i].price,
    ) && ladder_map(s)[s[i].price] == s[i].size by {
        lemma_ladder_map_at(s, ascending, i);
    }
}

/// Two ladders in one direction with the same map are the same sequence.
pub proof fn lemma_ladder_unique(s: Seq<PriceSize>, t: Seq<PriceSize>, ascending: bool)
    requires
        is_ladder(s, ascending),
        is_ladder(t, ascending),
        ladder_map(s) == ladder_map(t),
    ensures
        s == t,
    decreases s.len() + t.len(),
{
    reveal(ladder_map);
    lemma_ladder_map_values(s, ascending);
    lemma_ladder_map_values(t, ascending);
    if s.len() == 0 {
        if t.len() > 0 {
            assert(ladder_map(t).dom().contains(t[0].price));
            assert(!has_price(s, t[0].price));
        }
        assert(s =~= t);
    } else if t.len() == 0 {
        assert(ladder_map(s).dom().contains(s[0].price));
        assert(!has_price(t, s[0].price));
    } else {
        // The first elements of both are the extreme price of the shared map.
        let a = s[0];
        let b = t[0];
        assert(ladder_map(s).dom().contains(a.price));
        assert(has_price(t, a.price));
        let j = choose|j: int| 0 <= j < t.len() && #[trigger] t[j].price == a.price;
        assert(ladder_map(t).dom().contains(b.price));
        assert(has_price(s, b.price));
        let k = choose|k: int| 0 <= k < s.len() && #[trigger] s[k].price == b.price;
        if j > 0 {
            assert(ordered_before(ascending, t[0].price, t[j].price));
            if k > 0 {
                assert(ordered_before(ascending, s[0].price, s[k].price));
            }
        }
        assert(j == 0);
        assert(a.price == b.price);
        assert(a.size == ladder_map(s)[a.price]);
        assert(b.size == ladder_map(t)[b.price]);
        assert(a == b);
        let s1 = s.drop_first();
        let t1 = t.drop_first();
        assert(is_ladder(s1, ascending)) by {
            assert forall|i: int, j: int| 0 <= i < j < s1.len() implies ordered_before(
                ascending,
                #[trigger] s1[i].price,
                #[trigger] s1[j].price,
            ) by {
                assert(s1[i] == s[i + 1]);
                assert(s1[j] == s[j + 1]);
            }
        }
        assert(is_ladder(t1, ascending)) by {
            assert forall|i: int, j: int| 0 <= i < j < t1.len() implies ordered_before(
                ascending,
                #[trigger] t1[i].price,
                #[trigger] t1[j].price,
            ) by {
                assert(t1[i] == t[i + 1]);
                assert(t1[j] == t[j + 1]);
            }
        }
        lemma_ladder_map_values(s1, ascending);
        lemma_ladder_map_values(t1, ascending);
        assert(ladder_map(s1) =~= ladder_map(t1)) by {
            assert forall|p: u64| #[trigger] ladder_map(s1).dom().contains(p) implies ladder_map(
                t1,
            ).dom().contains(p) && ladder_map(s1)[p] == ladder_map(t1)[p] by {
                let i = choose|i: int| 0 <= i < s1.len() && #[trigger] s1[i].price == p;
                assert(s1[i] == s[i + 1]);
                assert(ordered_before(ascending, s[0].price, s[i + 1].price));
                assert(ladder_map(t).dom().contains(p));
                let m = choose|m: int| 0 <= m < t.len() && #[trigger] t[m].price == p;
                assert(m != 0);
                assert(t1[m - 1] == t[m]);
                assert(has_price(t1, p));
                assert(ladder_map(t)[p] == t[m].size);
                assert(ladder_map(s)[p] == s[i + 1].size);
            }
            assert forall|p: u64| #[trigger] ladder_map(t1).dom().contains(p) implies ladder_map(
                s1,
            ).dom().contains(p) by {
                let i = choose|i: int| 0 <= i < t1.len() && #[trigger] t1[i].price == p;
                assert(t1[i] == t[i + 1]);
                assert(ordered_before(ascending, t[0].price, t[i + 1].price));
                assert(ladder_map(s).dom().contains(p));
                let m = choose|m: int| 0 <= m < s.len() && #[trigger] s[m].price == p;
                assert(m != 0);
                assert(s1[m - 1] == s[m]);
                assert(has_price(s1, p));
            }
        }
        lemma_ladder_unique(s1, t1, ascending);
        assert(s =~= t) by {
            assert forall|i: int| 0 <= i < s.len() implies s[i] == t[i] by {
                if i > 0 {
                    assert(s[i] == s1[i - 1]);
                    assert(t[i] == t1[i - 1]);
                }
            }
        }
    }
}

/// An ascending ladder read backwards is the descending ladder of the same
/// prices and sizes.
proof fn lemma_reverse_ladder(a: Seq<PriceSize>)
    requires
        is_ladder(a, true),
    ensures
        is_ladder(a.reverse(), false),
        ladder_map(a.reverse()) == ladder_map(a),
{
    let r = a.reverse();
    let n = a.len();
    assert forall|i: int, j: int| 0 <= i < j < r.len() implies ordered_before(false, #[trigger] r[i].price, #[trigger] r[j].price) by {
        assert(r[i] == a[n - 1 - i]);
        assert(r[j] == a[n - 1 - j]);
        assert(ordered_before(true, a[n - 1 - j].price, a[n - 1 - i].price));
    }
    lemma_ladder_map_values(a, true);
    lemma_ladder_map_values(r, false);
    assert forall|p: u64| has_price(r, p) <==> has_price(a, p) by {
        if has_price(r, p) {
            let i = choose|i: int| 0 <= i < r.len() && #[trigger] r[i].price == p;
            assert(a[n - 1 - i] == r[i]);
        }
        if has_price(a, p) {
            let i = choose|i: int| 0 <= i < a.len() && #[trigger] a[i].price == p;
            assert(r[n - 1 - i] == a[i]);
        }
    }
    assert forall|p: u64| #[trigger] ladder_map(r).dom().contains(p) implies ladder_map(r)[p] == ladder_map(a)[p] by {
        let i = choose|i: int| 0 <= i < r.len() && #[trigger] r[i].price == p;
        assert(r[i] == a[n - 1 - i]);
        assert(ladder_map(a)[a[n - 1 - i].price] == a[n - 1 - i].size);
    }
    assert(ladder_map(r) =~= ladder_map(a));
}

/// A back ladder and a lay ladder of the same prices and sizes mirror each
/// other: the lay ladder is the back ladder read backwards.
pub proof fn lemma_ladder_mirror(ascending: Seq<PriceSize>, descending: Seq<PriceSize>)
    requires
        is_ladder(ascending, true),
        is_ladder(descending, false),
        ladder_map(ascending) == ladder_map(descending),
    ensures
        descending == ascending.reverse(),
{
    lemma_reverse_ladder(ascending);
    lemma_ladder_unique(ascending.reverse(), descending, false);
}

/// Applying the same updates to a back ladder and to the lay ladder that
/// mirrors it gives ladders that mirror each other.
pub proof fn lemma_updates_keep_mirror(
    back: Seq<PriceSize>,
    lay: Seq<PriceSize>,
    back_after: Seq<PriceSize>,
    lay_after: Seq<PriceSize>,
    us: Seq<PriceSize>,
)
    requires
        is_ladder(back, true),
        lay == back.reverse(),
        ladder_of(back_after, true, apply_updates(ladder_map(back), us)),
        ladder_of(lay_after, false, apply_updates(ladder_map(lay), us)),
    ensures
        lay_after == back_after.reverse(),
{
    lemma_reverse_ladder(back);
    lemma_ladder_mirror(back_after, lay_after);
}

/// Where `p` stands in a ladder: `Ok(i)` when `s[i]` has price `p`, otherwise
/// `Err(k)`, the index at which a level with price `p` would be inserted.
pub fn find_price(s: &[PriceSize], p: u64, ascending: bool) -> (r: Result<usize, usize>)
    requires
        is_ladder(s@, ascending),
    ensures
        match r {
            Ok(i) => i < s@.len() && s@[i as int].price == p,
            Err(k) => {
                &&& k <= s@.len()
                &&& forall|j: int| 0 <= j < k ==> ordered_before(ascending, #[trigger] s@[j].price, p)
                &&& forall|j: int|
                    k <= j < s@.len() ==> ordered_before(ascending, p, #[trigger] s@[j].price)
            },
        },
{
    let mut lo: usize = 0;
    let mut hi: usize = s.len();
    while lo < hi
        invariant
            is_ladder(s@, ascending),
            lo <= hi <= s@.len(),
            forall|j: int| 0 <= j < lo ==> ordered_before(ascending, #[trigger] s@[j].price, p),
            forall|j: int| hi <= j < s@.len() ==> ordered_before(ascending, p, #[trigger] s@[j].price),
        decreases hi - lo,
    {
        let mid = lo + (hi - lo) / 2;
        let m = s[mid].price;
        if m == p {
            return Ok(mid);
        }
        let before = if ascending {
            m < p
        } else {
            m > p
        };
        if before {
            assert forall|j: int| 0 <= j < mid + 1 implies ordered_before(
                ascending,
                #[trigger] s@[j].price,
                p,
            ) by {
                if j < mid {
                    assert(ordered_before(ascending, s@[j].price, s@[mid as int].price));
                }
            }
            lo = mid + 1;
        } else {
            assert forall|j: int| mid <= j < s@.len() implies ordered_before(
                ascending,
                p,
                #[trigger] s@[j].price,
            ) by {
                if j > mid {
                    assert(ordered_before(ascending, s@[mid as int].price, s@[j].price));
                }
            }
            hi = mid;
        }
    }
    Err(lo)
}

proof fn lemma_remove_at(s: Seq<PriceSize>, ascending: bool, i: int)
    requires
        is_ladder(s, ascending),
        0 <= i < s.len(),
    ensures
        is_ladder(s.remove(i), ascending),
        ladder_map(s.remove(i)) == ladder_map(s).remove(s[i].price),
{
    reveal(ladder_map);
    let t = s.remove(i);
    assert forall|a: int, b: int| 0 <= a < b < t.len() implies ordered_before(
        ascending,
        #[trigger] t[a].price,
        #[trigger] t[b].price,
    ) by {
        let a2 = if a < i { a } else { a + 1 };
        let b2 = if b < i { b } else { b + 1 };
        assert(t[a] == s[a2]);
        assert(t[b] == s[b2]);
    }
    lemma_ladder_map_values(s, ascending);
    lemma_ladder_map_values(t, ascending);
    let m = ladder_map(s).remove(s[i].price);
    assert(ladder_map(t) =~= m) by {
        assert forall|p: u64| #[trigger] ladder_map(t).dom().contains(p) implies m.dom().contains(p)
            && ladder_map(t)[p] == m[p] by {
            let k = choose|k: int| 0 <= k < t.len() && #[trigger] t[k].price == p;
            let k2 = if k < i { k } else { k + 1 };
            assert(t[k] == s[k2]);
            if k < i {
                assert(ordered_before(ascending, s[k2].price, s[i].price));
            } else {
                assert(ordered_before(ascending, s[i].price, s[k2].price));
            }
        }
        assert forall|p: u64| #[trigger] m.dom().contains(p) implies ladder_map(t).dom().contains(
            p,
        ) by {
            let k = choose|k: int| 0 <= k < s.len() && #[trigger] s[k].price == p;
            assert(k != i);
            let k2 = if k < i { k } else { k - 1 };
            assert(t[k2] == s[k]);
        }
    }
}

proof fn lemma_set_size_at(s: Seq<PriceSize>, ascending: bool, i: int, size: u64)
    requires
        is_ladder(s, ascending),
        0 <= i < s.len(),
    ensures
        is_ladder(s.update(i, PriceSize { price: s[i].price, size }), ascending),
        ladder_map(s.update(i, PriceSize { price: s[i].price, size })) == ladder_map(s).insert(
            s[i].price,
            size,
        ),
{
    reveal(ladder_map);
    let t = s.update(i, PriceSize { price: s[i].price, size });
    assert forall|a: int, b: int| 0 <= a < b < t.len() implies ordered_before(
        ascending,
        #[trigger] t[a].price,
        #[trigger] t[b].price,
    ) by {
        assert(t[a].price == s[a].price);
        assert(t[b].price == s[b].price);
    }
    lemma_ladder_map_values(s, ascending);
    lemma_ladder_map_values(t, ascending);
    let m = ladder_map(s).insert(s[i].price, size);
    assert(ladder_map(t) =~= m) by {
        assert forall|p: u64| #[trigger] ladder_map(t).dom().contains(p) implies m.dom().contains(p)
            && ladder_map(t)[p] == m[p] by {
            let k = choose|k: int| 0 <= k < t.len() && #[trigger] t[k].price == p;
            assert(t[k].price == s[k].price);
            if k != i {
                assert(s[k] == t[k]);
                if k < i {
                    assert(ordered_before(ascending, s[k].price, s[i].price));
                } else {
                    assert(ordered_before(ascending, s[i].price, s[k].price));
                }
            }
        }
        assert forall|p: u64| #[trigger] m.dom().contains(p) implies ladder_map(t).dom().contains(
            p,
        ) by {
            if p != s[i].price {
                let k = choose|k: int| 0 <= k < s.len() && #[trigger] s[k].price == p;
                assert(t[k].price == s[k].price);
            } else {
                assert(t[i].price == p);
            }
        }
    }
}

proof fn lemma_insert_at(s: Seq<PriceSize>, ascending: bool, k: int, u: PriceSize)
    requires
        is_ladder(s, ascending),
        0 <= k <= s.len(),
        forall|j: int| 0 <= j < k ==> ordered_before(ascending, #[trigger] s[j].price, u.price),
        forall|j: int| k <= j < s.len() ==> ordered_before(ascending, u.price, #[trigger] s[j].price),
    ensures
        is_ladder(s.insert(k, u), ascending),
        ladder_map(s.insert(k, u)) == ladder_map(s).insert(u.price, u.size),
{
    reveal(ladder_map);
    let t = s.insert(k, u);
    assert forall|a: int, b: int| 0 <= a < b < t.len() implies ordered_before(
        ascending,
        #[trigger] t[a].price,
        #[trigger] t[b].price,
    ) by {
        if a < k {
            assert(t[a] == s[a]);
        } else if a > k {
            assert(t[a] == s[a - 1]);
        }
        if b < k {
            assert(t[b] == s[b]);
        } else if b > k {
            assert(t[b] == s[b - 1]);
        }
    }
    lemma_ladder_map_values(s, ascending);
    lemma_ladder_map_values(t, ascending);
    let m = ladder_map(s).insert(u.price, u.size);
    assert(ladder_map(t) =~= m) by {
        assert forall|p: u64| #[trigger] ladder_map(t).dom().contains(p) implies m.dom().contains(p)
            && ladder_map(t)[p] == m[p] by {
            let j = choose|j: int| 0 <= j < t.len() && #[trigger] t[j].price == p;
            if j < k {
                assert(t[j] == s[j]);
            } else if j > k {
                assert(t[j] == s[j - 1]);
            } else {
                assert(t[j] == u);
            }
        }
        assert forall|p: u64| #[trigger] m.dom().contains(p) implies ladder_map(t).dom().contains(
            p,
        ) by {
            if p != u.price {
                let j = choose|j: int| 0 <= j < s.len() && #[trigger] s[j].price == p;
                if j < k {
                    assert(t[j] == s[j]);
                } else {
                    assert(t[j + 1] == s[j]);
                }
            } else {
                assert(t[k] == u);
            }
        }
    }
}

proof fn lemma_absent(s: Seq<PriceSize>, ascending: bool, k: int, p: u64)
    requires
        is_ladder(s, ascending),
        0 <= k <= s.len(),
        forall|j: int| 0 <= j < k ==> ordered_before(ascending, #[trigger] s[j].price, p),
        forall|j: int| k <= j < s.len() ==> ordered_before(ascending, p, #[trigger] s[j].price),
    ensures
        ladder_map(s).remove(p) == ladder_map(s),
{
    reveal(ladder_map);
    lemma_ladder_map_values(s, ascending);
    assert(!has_price(s, p)) by {
        if has_price(s, p) {
            let j = choose|j: int| 0 <= j < s.len() && #[trigger] s[j].price == p;
            if j < k {
                assert(ordered_before(ascending, s[j].price, p));
            } else {
                assert(ordered_before(ascending, p, s[j].price));
            }
        }
    }
    assert(ladder_map(s).remove(p) =~= ladder_map(s));
}

/// Applies one update to a ladder held in place.
pub fn apply_price_size(ladder: &mut Vec<PriceSize>, u: PriceSize, ascending: bool)
    requires
        is_ladder(old(ladder)@, ascending),
    ensures
        is_ladder(final(ladder)@, ascending),
        ladder_map(final(ladder)@) == apply_update(ladder_map(old(ladder)@), u),
{
    let found = find_price(ladder.as_slice(), u.price, ascending);
    if u.size == 0 {
        match found {
            Ok(index) => {
                proof {
                    lemma_remove_at(ladder@, ascending, index as int);
                }
                ladder.remove(index);
            },
            Err(k) => {
                proof {
                    lemma_absent(ladder@, ascending, k as int, u.price);
                }
            },
        }
    } else {
        match found {
            Ok(index) => {
                proof {
                    lemma_set_size_at(ladder@, ascending, index as int, u.size);
                }
                let price = ladder[index].price;
                ladder.set(index, PriceSize { price, size: u.size });
            },
            Err(k) => {
                proof {
                    lemma_insert_at(ladder@, ascending, k as int, u);
                }
                ladder.insert(k, u);
            },
        }
    }
}

/// Applies the updates, in order, to a ladder held in place.
pub fn apply_price_sizes(ladder: &mut Vec<PriceSize>, updates: &[PriceSize], ascending: bool)
    requires
        is_ladder(old(ladder)@, ascending),
    ensures
        is_ladder(final(ladder)@, ascending),
        ladder_map(final(ladder)@) == apply_updates(ladder_map(old(ladder)@), updates@),
{
    let ghost start = ladder_map(ladder@);
    let mut i: usize = 0;
    while i < updates.len()
        invariant
            i <= updates@.len(),
            is_ladder(ladder@, ascending),
            ladder_map(ladder@) == apply_updates(start, updates@.take(i as int)),
        decreases updates@.len() - i,
    {
        assert(updates@.take(i + 1).drop_last() =~= updates@.take(i as int));
        apply_price_size(ladder, updates[i], ascending);
        i = i + 1;
    }
    assert(updates@.take(i as int) =~= updates@);
}


/// The capacity that an empty ladder is given before its first update.
pub const MIN_VEC_CAP: usize = 20;

/// The capacity of a ladder's storage. What comes back depends on the
/// allocator; nothing is stated of it.
#[verifier::external_body]
pub(crate) fn ladder_capacity(ladder: &Vec<PriceSize>) -> usize {
    ladder.capacity()
}

/// `Vec::reserve_exact`: makes room for `additional` more levels and leaves
/// the contents as they were (it panics where the room asked for passes
/// `isize::MAX` bytes; a level takes 16). The capacity it reaches is not
/// stated.
#[verifier::external_body]
fn reserve_levels(ladder: &mut Vec<PriceSize>, additional: usize)
    requires
        (old(ladder)@.len() + additional) * 16 <= isize::MAX,
    ensures
        final(ladder)@ == old(ladder)@,
{
    ladder.reserve_exact(additional)
}

/// Gives a ladder with no storage yet room for `MIN_VEC_CAP` levels.
fn grow_empty(ladder: &mut Vec<PriceSize>)
    ensures
        final(ladder)@ == old(ladder)@,
{
    if ladder_capacity(ladder) == 0 && ladder.len() == 0 {
        reserve_levels(ladder, MIN_VEC_CAP);
    }
}

/// A sequence of updates to a back ladder: prices ascending.
pub struct PriceSizeBackLadder<'a>(pub &'a [PriceSize]);

impl<'a> PriceSizeBackLadder<'a> {
    /// Applies the updates, in order, to the ladder in place.
    pub fn deserialize(self, ladder: &mut Vec<PriceSize>)
        requires
            is_ladder(old(ladder)@, true),
        ensures
            ladder_of(final(ladder)@, true, apply_updates(ladder_map(old(ladder)@), self.0@)),
    {
        grow_empty(ladder);
        apply_price_sizes(ladder, self.0, true);
    }
}

/// A sequence of updates to a lay ladder: prices descending.
pub struct PriceSizeLayLadder<'a>(pub &'a [PriceSize]);

impl<'a> PriceSizeLayLadder<'a> {
    /// Applies the updates, in order, to the ladder in place.
    pub fn deserialize(self, ladder: &mut Vec<PriceSize>)
        requires
            is_ladder(old(ladder)@, false),
        ensures
            ladder_of(final(ladder)@, false, apply_updates(ladder_map(old(ladder)@), self.0@)),
    {
        grow_empty(ladder);
        apply_price_sizes(ladder, self.0, false);
    }
}

/// A copy of a ladder, or a new empty one.
fn copy_ladder(from: Option<&[PriceSize]>) -> (r: Vec<PriceSize>)
    ensures
        r@ == (match from {
            Some(s) => s@,
            None => Seq::<PriceSize>::empty(),
        }),
{
    match from {
        Some(ps) => {
            let cap = if ps.len() < 345 {
                ps.len() + 5
            } else {
                350
            };
            let mut v: Vec<PriceSize> = Vec::with_capacity(cap);
            let mut i: usize = 0;
            while i < ps.len()
                invariant
                    i <= ps@.len(),
                    v@ == ps@.take(i as int),
                decreases ps@.len() - i,
            {
                v.push(ps[i]);
                i = i + 1;
                assert(v@ =~= ps@.take(i as int));
            }
            assert(ps@.take(i as int) =~= ps@);
            v
        },
        None => Vec::with_capacity(10),
    }
}

/// The ladder before an update, read as a sequence (empty when absent).
pub open spec fn previous_ladder(from: Option<&[PriceSize]>) -> Seq<PriceSize> {
    match from {
        Some(s) => s@,
        None => Seq::<PriceSize>::empty(),
    }
}

/// A back ladder (prices ascending) that updates produce from an earlier
/// one, which is left as it was.
pub struct ImmutablePriceSizeBackLadder<'a>(pub Option<&'a [PriceSize]>);

impl<'a> ImmutablePriceSizeBackLadder<'a> {
    pub fn deserialize(self, updates: &[PriceSize]) -> (r: Vec<PriceSize>)
        requires
            is_ladder(previous_ladder(self.0), true),
        ensures
            ladder_of(r@, true, apply_updates(ladder_map(previous_ladder(self.0)), updates@)),
    {
        let mut v = copy_ladder(self.0);
        apply_price_sizes(&mut v, updates, true);
        v
    }
}

/// A lay ladder (prices descending) that updates produce from an earlier
/// one, which is left as it was.
pub struct ImmutablePriceSizeLayLadder<'a>(pub Option<&'a [PriceSize]>);

impl<'a> ImmutablePriceSizeLayLadder<'a> {
    pub fn deserialize(self, updates: &[PriceSize]) -> (r: Vec<PriceSize>)
        requires
            is_ladder(previous_ladder(self.0), false),
        ensures
            ladder_of(r@, false, apply_updates(ladder_map(previous_ladder(self.0)), updates@)),
    {
        let mut v = copy_ladder(self.0);
        apply_price_sizes(&mut v, updates, false);
        v
    }
}

} // verus!
