//! The integer skeleton of the per-band visibility kernel.
//!
//! One kernel invocation handles one (point, direction) pair of a sector:
//! it maps the invocation id to a point of view, walks the band of sight
//! by adding or subtracting the sector's delta template, and records the
//! band's visible "ring sectors" — maximal runs of visible cells — as
//! open/close cell ids in the band's slice of the ring buffer.  The
//! caller evaluates the floating-point visibility angle of each walked
//! cell and hands the verdicts back as plain booleans; everything else of
//! the kernel is here, with proved contracts.

use vstd::prelude::*;

verus! {

/// Constants that don't change for the entirety of the computation.
#[derive(Clone, Copy, PartialEq, Eq, Structural, Debug)]
pub struct Constants {
    /// The total number of both forward and backward bands.
    pub total_bands: u32,
    /// The maximum line of sight as a count of cells.
    pub max_los_as_points: u32,
    /// The width of the DEM.
    pub dem_width: u32,
    /// The width of the computable region of the DEM.
    pub tvs_width: u32,
    /// The number of ring-buffer entries reserved for each band.
    pub reserved_rings_per_band: u32,
}

impl Constants {
    /// The fields describe one consistent grid: the computable region is
    /// the one its width and line of sight dictate, and there is one
    /// forward and one backward band per computable point.
    pub open spec fn wf(self) -> bool {
        &&& 1 <= self.dem_width <= 0xFFFF
        &&& 2 * self.max_los_as_points <= self.dem_width
        &&& self.tvs_width == crate::dem::computable_side(
            self.dem_width as int,
            self.max_los_as_points as int,
        )
        &&& self.total_bands == 2 * (self.tvs_width * self.tvs_width)
    }
}

/// The direction of a band from the observer's point of view.
#[derive(Clone, Copy, PartialEq, Eq, Structural, Debug)]
pub enum BandDirection {
    /// A band facing forward from the observer.
    Forward,
    /// A band facing behind the observer.
    Backward,
}

/// Translate a kernel invocation id into its band direction, its id in
/// the computable sub-grid, and its point of view's flat DEM id.
pub fn kernel_band(kernel_id: u32, constants: &Constants) -> (r: (BandDirection, u32, u32))
    requires
        constants.wf(),
        kernel_id < constants.total_bands,
    ensures
        ({
            let half = constants.total_bands / 2;
            &&& (kernel_id < half ==> r.0 == BandDirection::Forward && r.1 == kernel_id)
            &&& (kernel_id >= half ==> r.0 == BandDirection::Backward && r.1 == kernel_id - half)
            &&& r.2 == (r.1 as int / constants.tvs_width as int + constants.max_los_as_points)
                * constants.dem_width + r.1 as int % constants.tvs_width as int
                + constants.max_los_as_points
            &&& r.2 < constants.dem_width * constants.dem_width
            &&& crate::dem::point_computable(
                constants.dem_width as int,
                constants.max_los_as_points as int,
                r.2 as int,
            )
        }),
{
    let half_total_bands = constants.total_bands / 2;
    let (band_direction, tvs_id) = if kernel_id < half_total_bands {
        (BandDirection::Forward, kernel_id)
    } else {
        (BandDirection::Backward, kernel_id - half_total_bands)
    };
    proof {
        crate::dem::lemma_tvs_to_pov(
            constants.dem_width as int,
            constants.max_los_as_points as int,
            constants.tvs_width as int,
            tvs_id as int,
        );
        assert(constants.dem_width * constants.dem_width <= 0xFFFF * 0xFFFF) by (nonlinear_arith)
            requires
                constants.dem_width <= 0xFFFF,
        ;
    }
    let pov_x = tvs_id % constants.tvs_width + constants.max_los_as_points;
    let pov_y = tvs_id / constants.tvs_width + constants.max_los_as_points;
    let pov_id = (pov_y * constants.dem_width) + pov_x;
    (band_direction, tvs_id, pov_id)
}

/// Where the walk from a point of view stands after `k` delta steps:
/// deltas are added along the forward band and subtracted along the
/// backward band.
pub open spec fn walk_id(pov_id: int, deltas: Seq<i32>, forward: bool, k: int) -> int
    decreases k,
{
    if k <= 0 {
        pov_id
    } else {
        let prev = walk_id(pov_id, deltas, forward, k - 1);
        if forward {
            prev + deltas[k - 1]
        } else {
            prev - deltas[k - 1]
        }
    }
}

/// The backward band mirrors the forward band around the point of view.
pub proof fn lemma_band_symmetry(pov_id: int, deltas: Seq<i32>, k: int)
    ensures
        walk_id(pov_id, deltas, false, k) == 2 * pov_id - walk_id(pov_id, deltas, true, k),
    decreases k,
{
    if k > 0 {
        lemma_band_symmetry(pov_id, deltas, k - 1);
    }
}

/// Safely add a delta to a cell id.
pub fn delta_add(dem_id: usize, delta: i32) -> (r: usize)
    requires
        0 <= dem_id + delta <= usize::MAX,
    ensures
        r == dem_id + delta,
{
    if delta >= 0 {
        dem_id + (delta as usize)
    } else {
        dem_id - ((-(delta as i64)) as usize)
    }
}

/// Safely subtract a delta from a cell id.
pub fn delta_subtract(dem_id: usize, delta: i32) -> (r: usize)
    requires
        0 <= dem_id - delta <= usize::MAX,
    ensures
        r == dem_id - delta,
{
    if delta >= 0 {
        dem_id - (delta as usize)
    } else {
        dem_id + ((-(delta as i64)) as usize)
    }
}

/// Walk a whole band from its point of view.  Returns the cells after
/// each delta step, or `None` when the walk would leave the grid — which
/// a delta template compiled for this grid never does for a computable
/// point of view.
pub fn band_cells_from(pov_id: u32, deltas: &Vec<i32>, forward: bool, size: u32) -> (r: Option<
    Vec<u32>,
>)
    requires
        pov_id < size,
    ensures
        r matches Some(cells) ==> {
            &&& cells@.len() == deltas@.len()
            &&& forall|k: int|
                0 <= k < cells@.len() ==> cells@[k] == walk_id(
                    pov_id as int,
                    deltas@,
                    forward,
                    k + 1,
                )
        },
        r is Some <==> forall|k: int|
            1 <= k <= deltas@.len() ==> 0 <= #[trigger] walk_id(pov_id as int, deltas@, forward, k)
                < size,
{
    let mut cells: Vec<u32> = Vec::new();
    let mut dem_id = pov_id;
    let mut index: usize = 0;
    while index < deltas.len()
        invariant
            index <= deltas@.len(),
            pov_id < size,
            dem_id as int == walk_id(pov_id as int, deltas@, forward, index as int),
            dem_id < size,
            cells@.len() == index,
            forall|k: int|
                0 <= k < index ==> cells@[k] == walk_id(pov_id as int, deltas@, forward, k + 1),
            forall|k: int|
                1 <= k <= index ==> 0 <= #[trigger] walk_id(pov_id as int, deltas@, forward, k)
                    < size,
        decreases deltas@.len() - index,
    {
        let delta = deltas[index];
        let stepped: i64 = if forward {
            dem_id as i64 + delta as i64
        } else {
            dem_id as i64 - delta as i64
        };
        if stepped < 0 || stepped >= size as i64 {
            proof {
                assert(!(0 <= walk_id(pov_id as int, deltas@, forward, index + 1) < size));
            }
            return None;
        }
        dem_id = stepped as u32;
        cells.push(dem_id);
        index = index + 1;
    }
    Some(cells)
}

/// The previous visibility verdict before step `i`: the point of view
/// itself counts as visible.
pub open spec fn prev_visible(vis: Seq<bool>, i: int) -> bool {
    if i <= 0 {
        true
    } else {
        vis[i - 1]
    }
}

/// The cells recorded for the visibility transitions among the first `i`
/// steps of a band: one entry wherever a run of visible cells opens or
/// closes.
pub open spec fn transitions_upto(cells: Seq<u32>, vis: Seq<bool>, i: int) -> Seq<u32>
    decreases i,
{
    if i <= 0 {
        Seq::empty()
    } else {
        transitions_upto(cells, vis, i - 1) + if vis[i - 1] != prev_visible(vis, i - 1) {
            seq![cells[i - 1]]
        } else {
            Seq::empty()
        }
    }
}

/// Everything one band writes into its slice of the ring buffer, the
/// leading count excluded: an opening at the point of view, one entry per
/// visibility transition, and a synthetic closing when the walk ends
/// while the land is still visible.
pub open spec fn ring_entries(pov_id: u32, cells: Seq<u32>, vis: Seq<bool>) -> Seq<u32> {
    let n = cells.len() as int;
    seq![pov_id] + transitions_upto(cells, vis, n) + (if n == 0 {
        seq![pov_id]
    } else if vis[n - 1] {
        seq![cells[n - 1]]
    } else {
        Seq::empty()
    })
}

/// A run of visible cells that opens also closes: the number of recorded
/// transitions is even exactly when the band is visible at its end.
proof fn lemma_transitions_parity(cells: Seq<u32>, vis: Seq<bool>, i: int)
    requires
        0 <= i <= vis.len(),
    ensures
        transitions_upto(cells, vis, i).len() % 2 == (if prev_visible(vis, i) {
            0int
        } else {
            1int
        }),
    decreases i,
{
    if i > 0 {
        lemma_transitions_parity(cells, vis, i - 1);
    }
}

/// Every band records an even number of ring entries: openings and
/// closings pair up, the opening at the point of view included.
pub proof fn lemma_ring_entries_even(pov_id: u32, cells: Seq<u32>, vis: Seq<bool>)
    requires
        vis.len() == cells.len(),
    ensures
        ring_entries(pov_id, cells, vis).len() % 2 == 0,
{
    lemma_transitions_parity(cells, vis, cells.len() as int);
}

/// Save ring data.
pub fn save_ring_data(ring_data: &mut Vec<u32>, index: usize, value: u32)
    requires
        index < old(ring_data)@.len(),
    ensures
        final(ring_data)@ == old(ring_data)@.update(index as int, value),
{
    ring_data[index] = value;
}

/// Record one band's ring sectors into its slice of the ring buffer:
/// the entry count at the slice's first position, the entries after it.
/// Fails, writing nothing, when the reserved slice cannot hold them.
pub fn record_rings(
    pov_id: u32,
    cells: &Vec<u32>,
    visible: &Vec<bool>,
    ring_data: &mut Vec<u32>,
    start: usize,
    reserved: usize,
) -> (r: Result<(), crate::Error>)
    requires
        visible@.len() == cells@.len(),
        start + reserved <= old(ring_data)@.len(),
        reserved <= 0xFFFF_FFFF,
    ensures
        ({
            let entries = ring_entries(pov_id, cells@, visible@);
            &&& (r is Ok <==> entries.len() < reserved)
            &&& (r matches Err(e) ==> e == crate::Error::BufferOverrun && final(ring_data)@ == old(
                ring_data,
            )@)
            &&& (r is Ok ==> {
                &&& final(ring_data)@.len() == old(ring_data)@.len()
                &&& final(ring_data)@[start as int] == entries.len() as u32
                &&& forall|j: int|
                    0 <= j < entries.len() ==> final(ring_data)@[start + 1 + j] == entries[j]
                &&& forall|i: int|
                    0 <= i < final(ring_data)@.len() && !(start <= i <= start + entries.len())
                        ==> final(ring_data)@[i] == old(ring_data)@[i]
            })
        }),
{
    let ghost all_entries = ring_entries(pov_id, cells@, visible@);
    let mut entries: Vec<u32> = Vec::new();
    entries.push(pov_id);
    let mut prev: bool = true;
    let mut i: usize = 0;
    while i < cells.len()
        invariant
            i <= cells@.len(),
            visible@.len() == cells@.len(),
            prev == prev_visible(visible@, i as int),
            entries@ == seq![pov_id] + transitions_upto(cells@, visible@, i as int),
        decreases cells@.len() - i,
    {
        let current = visible[i];
        if current != prev {
            entries.push(cells[i]);
        }
        proof {
            assert(entries@ == seq![pov_id] + transitions_upto(cells@, visible@, i + 1));
        }
        prev = current;
        i = i + 1;
    }
    if cells.len() == 0 {
        entries.push(pov_id);
    } else if prev {
        entries.push(cells[cells.len() - 1]);
    }
    proof {
        assert(entries@ == all_entries);
    }
    if entries.len() >= reserved {
        return Err(crate::Error::BufferOverrun);
    }
    save_ring_data(ring_data, start, entries.len() as u32);
    let ring_data_len = ring_data.len();
    let mut j: usize = 0;
    while j < entries.len()
        invariant
            j <= entries@.len(),
            entries@ == all_entries,
            entries@.len() < reserved,
            reserved <= 0xFFFF_FFFF,
            start + reserved <= ring_data@.len(),
            ring_data@.len() == ring_data_len,
            ring_data@.len() == old(ring_data)@.len(),
            ring_data@[start as int] == entries@.len() as u32,
            forall|k: int| 0 <= k < j ==> ring_data@[start + 1 + k] == entries@[k],
            forall|i2: int|
                0 <= i2 < ring_data@.len() && !(start <= i2 <= start + j) ==> ring_data@[i2]
                    == old(ring_data)@[i2],
        decreases entries@.len() - j,
    {
        save_ring_data(ring_data, start + 1 + j, entries[j]);
        j = j + 1;
    }
    Ok(())
}

} // verus!
