//! The band of sight: which cells a line of sight sweeps, described once
//! per sector as a template of signed index deltas.
//!
//! One band's shape serves every point of a sector: on a regular grid the
//! differences between the flat ids of cells along a fixed-angle line are
//! translation-invariant, so adding the deltas to any point's id traces
//! its forward band, and subtracting them traces the backward band.
//!
//! The template is compiled from the two orderings of [`crate::axes`]: a
//! window of consecutive entries of the sector ordering, centred on the
//! grid's middle cell, gives the cells inside one band; sorting that
//! window by each cell's sight rank puts them in band-length order; the
//! deltas are the differences of consecutive cells in the upper half of
//! that ordered window.  The window is oversampled by a factor of the
//! square root of two so that a diagonal band cannot slip between cells.

use vstd::prelude::*;

verus! {

/// How many sector-ordered cells the compiler samples for a band of the
/// given size: `floor(2 * band_size * sqrt(2))`.
pub open spec fn band_samples_of(band_size: int) -> int {
    crate::dem::sqrt_floor(8 * band_size * band_size)
}

/// The window of sector-ordered cells the template is compiled from.
pub open spec fn band_window(sector_ordered: Seq<u32>, band_size: int) -> Seq<u32> {
    let samples = band_samples_of(band_size);
    let edge = sector_ordered.len() / 2 - samples / 2;
    sector_ordered.subrange(edge as int, edge as int + samples)
}

/// Each window cell's rank along the sight axis.
pub open spec fn window_ranks(window: Seq<u32>, sight_ordered_map: Seq<usize>) -> Seq<u64> {
    Seq::new(window.len(), |j: int| sight_ordered_map[window[j] as int] as u64)
}

/// The band's cells in band-length order: the upper half of the window
/// once it is sorted by sight rank.
pub open spec fn band_cells(sector_ordered: Seq<u32>, sight_ordered_map: Seq<usize>, band_size: int) -> Seq<
    u32,
> {
    let samples = band_samples_of(band_size);
    let window = band_window(sector_ordered, band_size);
    let order = crate::axes::ordered_ids(window_ranks(window, sight_ordered_map));
    Seq::new(band_size as nat, |k: int| window[order[samples / 2 + k] as int])
}

/// Whether the grid is large enough for the window to fit: the middle
/// cell must have half a window on each side, and cell ids must fit in a
/// signed 32-bit delta.
pub open spec fn band_compilable(dem: crate::dem::DEM) -> bool {
    let samples = band_samples_of(dem.band_size as int);
    &&& dem.band_size >= 2
    &&& dem.size <= 0x7FFF_FFFF
    &&& samples / 2 <= dem.size / 2
    &&& dem.size / 2 - samples / 2 + samples <= dem.size
}

/// Why one template serves every point: walking the deltas forward from
/// any point of view lands, step for step, on the template's band
/// translated by the offset between the point of view and the template's
/// first cell; the backward walk lands on the mirror image.  On a regular
/// grid the differences between flat ids along a fixed line do not depend
/// on where the line starts.
pub proof fn lemma_template_translates(pov: int, cells: Seq<u32>, deltas: Seq<i32>, k: int)
    requires
        deltas.len() == cells.len() - 1,
        forall|j: int| 0 <= j < deltas.len() ==> deltas[j] == cells[j] - cells[j + 1],
        0 <= k < cells.len(),
    ensures
        crate::kernel::walk_id(pov, deltas, true, k) == pov + cells[0] - cells[k],
        crate::kernel::walk_id(pov, deltas, false, k) == pov - cells[0] + cells[k],
    decreases k,
{
    if k > 0 {
        lemma_template_translates(pov, cells, deltas, k - 1);
    }
}

impl crate::dem::DEM {
    /// Compile the band-delta template for one sector.  Element `k` of the
    /// result is the difference between band cells `k` and `k + 1`; these
    /// deltas apply to *all* possible bands in this sector.
    pub fn compile_band_data(&self, axes: &crate::axes::Axes) -> (r: Result<Vec<i32>, crate::Error>)
        requires
            self.wf(),
            axes.wf(),
            axes.width == self.width,
        ensures
            r is Ok <==> band_compilable(*self),
            r matches Ok(deltas) ==> {
                let cells = band_cells(
                    axes.sector_ordered@,
                    axes.sight_ordered_map@,
                    self.band_size as int,
                );
                &&& deltas@.len() == self.band_size - 1
                &&& forall|k: int|
                    0 <= k < deltas@.len() ==> deltas@[k] == cells[k] - cells[k + 1]
            },
    {
        let ghost cells = band_cells(
            axes.sector_ordered@,
            axes.sight_ordered_map@,
            self.band_size as int,
        );
        if self.band_size < 2 {
            return Err(crate::Error::ConfigInvalid);
        }
        if self.size > 0x7FFF_FFFF {
            return Err(crate::Error::ConfigInvalid);
        }
        let band_size = self.band_size as usize;
        let bs64 = band_size as u64;
        proof {
            assert(bs64 * bs64 <= 0x8000 * 0x8000) by (nonlinear_arith)
                requires
                    bs64 <= 0x8000,
            ;
        }
        let band_samples_u64 = crate::dem::isqrt_u64(8 * (bs64 * bs64));
        proof {
            assert(band_samples_u64 <= 0x100_0000) by (nonlinear_arith)
                requires
                    band_samples_u64 * band_samples_u64 <= 0x8_0000_0000u64,
            ;
            let bs = self.band_size as int;
            assert(8 * ((bs64 * bs64) as int) == 8 * bs * bs) by (nonlinear_arith)
                requires
                    (bs64 * bs64) as int == bs * bs,
            ;
            assert(band_samples_u64 as int == band_samples_of(self.band_size as int));
        }
        let band_samples = band_samples_u64 as usize;
        let pov_id = (self.size as usize) / 2;
        if band_samples / 2 > pov_id {
            return Err(crate::Error::ConfigInvalid);
        }
        let band_edge = pov_id - band_samples / 2;
        if band_edge + band_samples > self.size as usize {
            return Err(crate::Error::ConfigInvalid);
        }
        proof {
            assert(band_compilable(*self));
            // The window reaches at least two band lengths, so the delta
            // loop below stays inside it.
            let bs = self.band_size as int;
            let samples = band_samples_of(bs);
            assert(2 * bs * (2 * bs) <= 8 * bs * bs) by (nonlinear_arith);
            crate::dem::lemma_sqrt_floor_bounds(8 * bs * bs);
            assert(samples >= 2 * bs) by {
                if samples < 2 * bs {
                    assert((samples + 1) * (samples + 1) <= 2 * bs * (2 * bs)) by (nonlinear_arith)
                        requires
                            0 <= samples,
                            samples + 1 <= 2 * bs,
                    ;
                }
            }
        }

        // Which cells are inside the band, not yet in band-length order.
        let mut window: Vec<u32> = Vec::new();
        let mut ranks: Vec<u64> = Vec::new();
        let mut i: usize = 0;
        while i < band_samples
            invariant
                i <= band_samples,
                self.wf(),
                axes.wf(),
                axes.width == self.width,
                band_edge + band_samples <= self.size,
                band_samples < 0x7FFF_FFFF,
                window@.len() == i,
                ranks@.len() == i,
                forall|j: int|
                    0 <= j < i ==> window@[j] == axes.sector_ordered@[band_edge + j],
                forall|j: int|
                    0 <= j < i ==> ranks@[j] == axes.sight_ordered_map@[window@[j] as int] as u64,
            decreases band_samples - i,
        {
            let next_band_point = band_edge + i;
            let dem_id = axes.sector_ordered[next_band_point];
            window.push(dem_id);
            let rank = axes.sight_ordered_map[dem_id as usize];
            ranks.push(rank as u64);
            i = i + 1;
        }
        proof {
            assert(window@ =~= band_window(axes.sector_ordered@, self.band_size as int));
            assert(ranks@ =~= window_ranks(window@, axes.sight_ordered_map@));
        }

        // Band-length order: sort the window positions by sight rank.
        let order = crate::axes::order_by_distance(&ranks);

        // The deltas that trace a path from the point of view to the
        // final cell in the band.
        let middle_of_whole_band = band_samples / 2;
        let mut band_deltas: Vec<i32> = Vec::new();
        let mut k: usize = 0;
        while k < band_size - 1
            invariant
                k <= band_size - 1,
                2 <= band_size <= 0x8000,
                middle_of_whole_band + band_size <= band_samples,
                order@ == crate::axes::ordered_ids(ranks@),
                order@.len() == band_samples,
                forall|j: int| 0 <= j < order@.len() ==> (order@[j] as int) < band_samples,
                window@.len() == band_samples,
                forall|j: int| 0 <= j < window@.len() ==> window@[j] < 0x7FFF_FFFF,
                middle_of_whole_band == band_samples / 2,
                cells == Seq::new(
                    band_size as nat,
                    |j: int| window@[order@[middle_of_whole_band + j] as int],
                ),
                band_deltas@.len() == k,
                forall|j: int| 0 <= j < k ==> band_deltas@[j] == cells[j] - cells[j + 1],
            decreases band_size - k,
        {
            let current = window[order[middle_of_whole_band + k] as usize];
            let next = window[order[middle_of_whole_band + k + 1] as usize];
            let delta = current as i32 - next as i32;
            band_deltas.push(delta);
            k = k + 1;
        }
        Ok(band_deltas)
    }
}

} // verus!
