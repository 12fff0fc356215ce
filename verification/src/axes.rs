//! Cell orderings for one sector angle.
//!
//! For a sector the caller projects every cell of the grid onto two
//! orthogonal lines — the sight axis, parallel to the band of sight, and
//! the sector axis, perpendicular to it — and encodes each projected
//! distance as an order-preserving unsigned key.  This module sorts the
//! cell ids by those keys, deterministically: ascending key, ties broken
//! by ascending id.  The sector ordering is kept as a permutation of the
//! ids; the sight ordering is kept inverted, id to rank, because the band
//! compiler looks cells up by id.

use vstd::prelude::*;
use vstd::relations::{sorted_by, total_ordering};

verus! {

/// The number of angular sectors that sweep the half-plane.
pub const SECTOR_STEPS: u16 = 180;

/// The order cell ids are sorted in: ascending key, ties by ascending id.
pub open spec fn key_order(keys: Seq<u64>) -> spec_fn(u32, u32) -> bool {
    |a: u32, b: u32|
        keys[a as int] < keys[b as int] || (keys[a as int] == keys[b as int] && a <= b)
}

/// The ids `0, 1, .., n - 1` in their natural order.
pub open spec fn id_sequence(n: nat) -> Seq<u32> {
    Seq::new(n, |i: int| i as u32)
}

/// What sorting the ids by a key sequence yields.
pub open spec fn ordered_ids(keys: Seq<u64>) -> Seq<u32> {
    id_sequence(keys.len()).sort_by(key_order(keys))
}

/// Sorting by key, ties by id, is a total order.
pub proof fn lemma_key_order_total(keys: Seq<u64>)
    ensures
        total_ordering(key_order(keys)),
{
    let leq = key_order(keys);
    assert forall|a: u32, b: u32| #[trigger] leq(a, b) || #[trigger] leq(b, a) by {
        if keys[a as int] == keys[b as int] {
            if a <= b {
                assert(leq(a, b));
            } else {
                assert(leq(b, a));
            }
        }
    }
}

/// Order cell ids by ascending key, ties by ascending id.  The result is
/// exactly the sorted permutation `ordered_ids` of `0 .. keys.len()`.
pub fn order_by_distance(keys: &Vec<u64>) -> (r: Vec<u32>)
    requires
        keys@.len() <= 0xFFFF_FFFF,
    ensures
        r@ == ordered_ids(keys@),
        r@.len() == keys@.len(),
        sorted_by(r@, key_order(keys@)),
        forall|k: int| 0 <= k < r@.len() ==> (r@[k] as int) < keys@.len(),
        forall|v: u32| (v as int) < keys@.len() ==> r@.contains(v),
        forall|x: int, y: int| 0 <= x < y < r@.len() ==> r@[x] != r@[y],
{
    broadcast use vstd::seq_lib::group_to_multiset_ensures;

    let ghost leq = key_order(keys@);
    let n = keys.len();
    let mut r: Vec<u32> = Vec::new();
    let mut i: usize = 0;
    while i < n
        invariant
            i <= n,
            n == keys@.len() <= 0xFFFF_FFFF,
            r@.len() == i,
            leq == key_order(keys@),
            r@.to_multiset() == id_sequence(i as nat).to_multiset(),
            sorted_by(r@, leq),
            forall|k: int| 0 <= k < r@.len() ==> (r@[k] as int) < i,
            forall|x: int, y: int| 0 <= x < y < r@.len() ==> r@[x] != r@[y],
        decreases n - i,
    {
        broadcast use vstd::seq_lib::group_to_multiset_ensures;

        let id = i as u32;
        let key_i = keys[i];
        let mut pos: usize = 0;
        while pos < r.len() && keys[r[pos] as usize] <= key_i
            invariant
                pos <= r@.len(),
                r@.len() == i < n == keys@.len(),
                n <= 0xFFFF_FFFF,
                leq == key_order(keys@),
                key_i == keys@[i as int],
                id == i as u32,
                forall|k: int| 0 <= k < r@.len() ==> (r@[k] as int) < i,
                forall|k: int| 0 <= k < pos ==> leq(r@[k], id),
            decreases r@.len() - pos,
        {
            proof {
                let a = r@[pos as int];
                assert(keys@[a as int] <= key_i);
                assert((a as int) < i as int);
                assert(a <= id);
                assert(key_order(keys@)(a, id));
            }
            pos = pos + 1;
        }
        proof {
            // Everything at or after the insert position goes strictly
            // after the new id in the order.
            assert forall|k: int| pos <= k < r@.len() implies leq(id, r@[k]) && r@[k] != id by {
                assert(leq(r@[pos as int], r@[k]));  // sortedness
                assert(keys@[r@[pos as int] as int] > key_i);
            }
            r@.insert_ensures(pos as int, id);
        }
        let ghost old_r = r@;
        r.insert(pos, id);
        proof {
            assert(sorted_by(r@, leq)) by {
                assert forall|x: int, y: int| 0 <= x < y < r@.len() implies leq(r@[x], r@[y]) by {
                    if y < pos {
                        assert(leq(old_r[x], old_r[y]));
                    } else if x > pos {
                        assert(leq(old_r[x - 1], old_r[y - 1]));
                    } else if x == pos && y > pos {
                        assert(leq(id, old_r[y - 1]));
                    } else if y == pos {
                        assert(leq(old_r[x], id));
                    } else {
                        // x < pos < y
                        assert(leq(old_r[x], id));
                        assert(leq(id, old_r[y - 1]));
                        assert(leq(old_r[x], old_r[y - 1]));
                    }
                }
            }
            assert(id_sequence((i + 1) as nat) =~= id_sequence(i as nat).push(id));
            assert(r@.to_multiset() == id_sequence((i + 1) as nat).to_multiset());
            assert forall|x: int, y: int| 0 <= x < y < r@.len() implies r@[x] != r@[y] by {
                if y == pos {
                    assert((old_r[x] as int) < i);
                } else if x == pos {
                    assert((old_r[y - 1] as int) < i);
                } else if x < pos && y > pos {
                    assert(r@[x] == old_r[x] && r@[y] == old_r[y - 1]);
                }
            }
        }
        i = i + 1;
    }
    proof {
        lemma_key_order_total(keys@);
        id_sequence(n as nat).lemma_sort_by_ensures(leq);
        vstd::seq_lib::lemma_sorted_unique(r@, ordered_ids(keys@), leq);
        assert(r@ == ordered_ids(keys@));
        assert forall|v: u32| (v as int) < keys@.len() implies r@.contains(v) by {
            assert(id_sequence(n as nat)[v as int] == v);
            assert(id_sequence(n as nat).contains(v));
            assert(id_sequence(n as nat).to_multiset().count(v) > 0);
        }
        assert forall|k: int| 0 <= k < r@.len() implies (r@[k] as int) < keys@.len() by {
            assert(r@.contains(r@[k]));
            assert(r@.to_multiset().count(r@[k]) > 0);
            assert(id_sequence(n as nat).contains(r@[k]));
        }
    }
    r
}

/// Reading the keys back through an ordering yields them in ascending
/// order: whatever ranks the inverse map assigns, the cells they came
/// from stand sorted by their projected distance.
pub proof fn lemma_ordering_sorts_keys(keys: Seq<u64>, k: int, l: int)
    requires
        0 <= k < l < keys.len(),
    ensures
        keys[ordered_ids(keys)[k] as int] <= keys[ordered_ids(keys)[l] as int],
{
    broadcast use vstd::seq_lib::group_to_multiset_ensures;

    lemma_key_order_total(keys);
    let ids = id_sequence(keys.len());
    ids.lemma_sort_by_ensures(key_order(keys));
    let order = ordered_ids(keys);
    assert(ids.to_multiset().len() == ids.len());
    assert(order.to_multiset().len() == order.len());
    assert(ids.to_multiset() =~= order.to_multiset());
    assert(order.len() == keys.len());
    assert(key_order(keys)(order[k], order[l]));
}

/// A rank map that inverts an ordering position by position is a true
/// inverse: looking any cell id up in it leads back to that id's place in
/// the ordering.
pub proof fn lemma_ordering_inverts(keys: Seq<u64>, map: Seq<usize>, id: u32)
    requires
        map.len() == keys.len(),
        forall|k: int|
            0 <= k < ordered_ids(keys).len() ==> map[(#[trigger] ordered_ids(keys)[k]) as int]
                == k,
        (id as int) < keys.len(),
    ensures
        map[id as int] < keys.len(),
        ordered_ids(keys)[map[id as int] as int] == id,
{
    broadcast use vstd::seq_lib::group_to_multiset_ensures;

    lemma_key_order_total(keys);
    let ids = id_sequence(keys.len());
    ids.lemma_sort_by_ensures(key_order(keys));
    let order = ordered_ids(keys);
    assert(ids.to_multiset().len() == ids.len());
    assert(order.to_multiset().len() == order.len());
    assert(ids.to_multiset() =~= order.to_multiset());
    assert(order.len() == keys.len());
    assert(ids[id as int] == id);
    assert(ids.contains(id));
    assert(order.to_multiset().count(id) > 0);
    assert(order.contains(id));
    let k = choose|k: int| 0 <= k < order.len() && order[k] == id;
    assert(map[(order[k]) as int] == k);
}

/// The two orderings of one sector pass.
pub struct Axes {
    /// The width of the DEM.
    pub width: u32,
    /// DEM ids ordered by their distance from the sector axis.
    pub sector_ordered: Vec<u32>,
    /// The rank of each DEM id in the ordering along the sight axis:
    /// indexed by id, it gives the id's position in that ordering.
    pub sight_ordered_map: Vec<usize>,
}

impl Axes {
    /// Whether the orderings describe a grid of this width: both hold one
    /// entry per cell, and the sector ordering only names real cells.
    pub open spec fn wf(self) -> bool {
        &&& self.sector_ordered@.len() == self.width * self.width
        &&& self.sight_ordered_map@.len() == self.width * self.width
        &&& forall|k: int|
            0 <= k < self.sector_ordered@.len() ==> (self.sector_ordered@[k] as int)
                < self.sector_ordered@.len()
    }

    /// Start from the identity orderings; `compute` replaces them.
    pub fn new(width: u32) -> (r: Result<Self, crate::Error>)
        ensures
            r is Ok <==> width <= 0xFFFF,
            r matches Ok(axes) ==> {
                &&& axes.wf()
                &&& axes.width == width
                &&& axes.sector_ordered@ == id_sequence((width * width) as nat)
                &&& forall|k: int|
                    0 <= k < axes.sight_ordered_map@.len() ==> axes.sight_ordered_map@[k] == k
            },
    {
        if width > 0xFFFF {
            return Err(crate::Error::ConfigInvalid);
        }
        proof {
            assert(width * width <= 0xFFFF * 0xFFFF) by (nonlinear_arith)
                requires
                    width <= 0xFFFF,
            ;
        }
        let total_points = width * width;
        let mut sector_ordered: Vec<u32> = Vec::new();
        let mut sight_ordered_map: Vec<usize> = Vec::new();
        let mut k: u32 = 0;
        while k < total_points
            invariant
                k <= total_points,
                sector_ordered@.len() == k,
                sight_ordered_map@.len() == k,
                forall|j: int| 0 <= j < k ==> sector_ordered@[j] == j as u32,
                forall|j: int| 0 <= j < k ==> sight_ordered_map@[j] == j,
            decreases total_points - k,
        {
            sector_ordered.push(k);
            sight_ordered_map.push(k as usize);
            k = k + 1;
        }
        proof {
            assert(sector_ordered@ =~= id_sequence((width * width) as nat));
        }
        Ok(Self { width, sector_ordered, sight_ordered_map })
    }

    /// Replace the orderings with the ones a sector's projected distances
    /// dictate.  `sight_keys` and `sector_keys` are the order-preserving
    /// encodings of each cell's distance from the two axes.
    pub fn compute(&mut self, sight_keys: &Vec<u64>, sector_keys: &Vec<u64>)
        requires
            old(self).width <= 0xFFFF,
            sight_keys@.len() == old(self).width * old(self).width,
            sector_keys@.len() == old(self).width * old(self).width,
        ensures
            final(self).width == old(self).width,
            final(self).wf(),
            final(self).sector_ordered@ == ordered_ids(sector_keys@),
            final(self).sight_ordered_map@.len() == sight_keys@.len(),
            forall|k: int|
                0 <= k < ordered_ids(sight_keys@).len() ==> final(self).sight_ordered_map@[(
                ordered_ids(sight_keys@)[k] as int)] == k,
    {
        proof {
            let ghost w = old(self).width;
            assert(w * w <= 0xFFFF * 0xFFFF) by (nonlinear_arith)
                requires
                    w <= 0xFFFF,
            ;
        }
        let sight_order = order_by_distance(sight_keys);
        let mut sight_ordered_map: Vec<usize> = vec![0; sight_keys.len()];
        let mut index: usize = 0;
        while index < sight_order.len()
            invariant
                index <= sight_order@.len(),
                sight_order@ == ordered_ids(sight_keys@),
                sight_ordered_map@.len() == sight_keys@.len(),
                forall|k: int| 0 <= k < sight_order@.len() ==> (sight_order@[k] as int)
                    < sight_keys@.len(),
                forall|x: int, y: int|
                    0 <= x < y < sight_order@.len() ==> sight_order@[x] != sight_order@[y],
                forall|k: int|
                    0 <= k < index ==> sight_ordered_map@[(sight_order@[k] as int)] == k,
            decreases sight_order@.len() - index,
        {
            let dem_id = sight_order[index] as usize;
            sight_ordered_map[dem_id] = index;
            index = index + 1;
        }
        self.sector_ordered = order_by_distance(sector_keys);
        self.sight_ordered_map = sight_ordered_map;
        proof {
            assert forall|k: int|
                0 <= k < ordered_ids(sight_keys@).len() implies self.sight_ordered_map@[(
            ordered_ids(sight_keys@)[k] as int)] == k by {}
        }
    }
}

} // verus!
