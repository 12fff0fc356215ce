//! Reconstruct one observer's viewshed from ring data, as rows of text.
//!
//! Each band's slice of a sector's ring buffer starts with an entry
//! count, then the entries: an opening at the point of view, and the
//! cells where visibility opened or closed along the band.  Walking
//! every band of every sector and marking the openings and closings of
//! the one observer of interest redraws that observer's viewshed: `.`
//! for an untouched cell, `+` an opening, `-` a closing, `±` both, and
//! `o` the observer.

use vstd::prelude::*;
use vstd::string::StringExecFns;

verus! {

/// What an opening at a cell leaves behind.
pub open spec fn mark_opened(m: u8) -> u8 {
    if m == 0 {
        1
    } else {
        3
    }
}

/// What a closing at a cell leaves behind.
pub open spec fn mark_closed(m: u8) -> u8 {
    if m == 0 {
        2
    } else {
        3
    }
}

/// One ring sector drawn onto the viewshed grid.
pub open spec fn populate_spec(v: Seq<u8>, opening: int, closing: int) -> Seq<u8> {
    let after_open = v.update(opening, mark_opened(v[opening]));
    let after_close = after_open.update(closing, mark_closed(after_open[closing]));
    if opening == closing {
        after_close.update(opening, 3)
    } else {
        after_close
    }
}

/// The first `pairs` ring sectors of the band at `base` drawn onto the
/// grid, when the band belongs to the observer.
pub open spec fn apply_pairs(
    v: Seq<u8>,
    sector: Seq<u32>,
    base: int,
    pairs: int,
    pov_id: u32,
) -> Seq<u8>
    decreases pairs,
{
    if pairs <= 0 {
        v
    } else {
        let prev = apply_pairs(v, sector, base, pairs - 1, pov_id);
        if sector[base + 1] == pov_id {
            populate_spec(
                prev,
                sector[base + 1 + 2 * (pairs - 1)] as int,
                sector[base + 2 + 2 * (pairs - 1)] as int,
            )
        } else {
            prev
        }
    }
}

/// One band's slice drawn onto the grid.
pub open spec fn apply_band(v: Seq<u8>, sector: Seq<u32>, base: int, pov_id: u32) -> Seq<u8> {
    apply_pairs(v, sector, base, sector[base] as int / 2, pov_id)
}

/// The first `bands` bands of a sector drawn onto the grid.
pub open spec fn apply_sector_upto(
    v: Seq<u8>,
    sector: Seq<u32>,
    reserved: int,
    pov_id: u32,
    bands: int,
) -> Seq<u8>
    decreases bands,
{
    if bands <= 0 {
        v
    } else {
        apply_band(
            apply_sector_upto(v, sector, reserved, pov_id, bands - 1),
            sector,
            (bands - 1) * reserved,
            pov_id,
        )
    }
}

/// Whether one band's slice stays inside its reservation and, when it is
/// the observer's, names only real cells.
pub open spec fn band_parseable(
    sector: Seq<u32>,
    band: int,
    reserved: int,
    size: int,
    pov_id: u32,
) -> bool {
    let base = band * reserved;
    &&& (sector[base] as int / 2) * 2 + 2 <= reserved
    &&& (sector[base + 1] == pov_id ==> forall|i: int|
        0 <= i < sector[base] as int / 2 ==> (#[trigger] sector[base + 1 + 2 * i]) < size
            && sector[base + 2 + 2 * i] < size)
}

/// Whether a whole sector's ring data can be parsed for the observer.
pub open spec fn sector_parseable(
    sector: Seq<u32>,
    total_bands: int,
    reserved: int,
    size: int,
    pov_id: u32,
) -> bool {
    forall|b: int|
        0 <= b < total_bands ==> #[trigger] band_parseable(sector, b, reserved, size, pov_id)
}

/// `OutputASCII`
pub struct OutputASCII {
    /// Amount of reserved ring data space per band.
    pub reserved_ring_size: usize,
    /// The position of the observer for the viewshed we want to
    /// reconstruct.
    pub pov_id: u32,
    /// The reconstructed viewshed, one mark per DEM cell.
    pub viewshed: Vec<u8>,
}

impl OutputASCII {
    /// Mark one ring sector's opening and closing on the viewshed.
    pub fn populate_viewshed(&mut self, opening: usize, closing: usize)
        requires
            opening < old(self).viewshed@.len(),
            closing < old(self).viewshed@.len(),
        ensures
            final(self).viewshed@ == populate_spec(
                old(self).viewshed@,
                opening as int,
                closing as int,
            ),
            final(self).pov_id == old(self).pov_id,
            final(self).reserved_ring_size == old(self).reserved_ring_size,
    {
        if self.viewshed[opening] == 0 {
            self.viewshed[opening] = 1;
        } else {
            self.viewshed[opening] = 3;
        }

        if self.viewshed[closing] == 0 {
            self.viewshed[closing] = 2;
        } else {
            self.viewshed[closing] = 3;
        }

        if opening == closing {
            self.viewshed[opening] = 3;
        }
    }

    /// Draw every band of one sector's ring data onto the viewshed,
    /// keeping only the observer's ring sectors.
    pub fn parse_sector(&mut self, sector: &Vec<u32>, total_bands: u32) -> (r: Result<
        (),
        crate::Error,
    >)
        requires
            sector@.len() == total_bands * old(self).reserved_ring_size,
            old(self).reserved_ring_size <= 0xFFFF_FFFF,
        ensures
            final(self).pov_id == old(self).pov_id,
            final(self).reserved_ring_size == old(self).reserved_ring_size,
            final(self).viewshed@.len() == old(self).viewshed@.len(),
            r is Ok <==> sector_parseable(
                sector@,
                total_bands as int,
                old(self).reserved_ring_size as int,
                old(self).viewshed@.len() as int,
                old(self).pov_id,
            ),
            r is Ok ==> final(self).viewshed@ == apply_sector_upto(
                old(self).viewshed@,
                sector@,
                old(self).reserved_ring_size as int,
                old(self).pov_id,
                total_bands as int,
            ),
    {
        let reserved = self.reserved_ring_size;
        let sector_len = sector.len();
        let ghost initial = self.viewshed@;
        let ghost size = self.viewshed@.len() as int;
        let ghost pov = self.pov_id;
        let mut band: u32 = 0;
        while band < total_bands
            invariant
                band <= total_bands,
                reserved == self.reserved_ring_size <= 0xFFFF_FFFF,
                reserved == old(self).reserved_ring_size,
                pov == self.pov_id,
                pov == old(self).pov_id,
                initial == old(self).viewshed@,
                size == old(self).viewshed@.len(),
                sector@.len() == total_bands * reserved,
                sector@.len() == sector_len,
                self.viewshed@.len() == size,
                self.viewshed@ == apply_sector_upto(
                    initial,
                    sector@,
                    reserved as int,
                    pov,
                    band as int,
                ),
                forall|b: int|
                    0 <= b < band ==> #[trigger] band_parseable(
                        sector@,
                        b,
                        reserved as int,
                        size,
                        pov,
                    ),
            decreases total_bands - band,
        {
            proof {
                assert((band + 1) * reserved <= total_bands * reserved) by (nonlinear_arith)
                    requires
                        band + 1 <= total_bands,
                        reserved >= 0,
                ;
                assert(band * reserved + reserved == (band + 1) * reserved) by (nonlinear_arith);
            }
            proof {
                assert(band * reserved <= (band + 1) * reserved) by (nonlinear_arith)
                    requires
                        reserved >= 0,
                        band >= 0,
                ;
            }
            let base = (band as usize) * reserved;
            if reserved < 2 {
                proof {
                    assert((sector@[base as int] as int / 2) * 2 >= 0) by (nonlinear_arith)
                        requires
                            sector@[base as int] as int / 2 >= 0,
                    ;
                    assert(!band_parseable(sector@, band as int, reserved as int, size, pov));
                }
                return Err(crate::Error::RingDataTruncated);
            }
            let ring_count = sector[base];
            let pairs = (ring_count / 2) as usize;
            let max_pairs = (reserved - 2) / 2;
            if pairs > max_pairs {
                proof {
                    assert((sector@[base as int] as int / 2) * 2 + 2 > reserved)
                        by (nonlinear_arith)
                        requires
                            pairs == sector@[base as int] as int / 2,
                            pairs > (reserved - 2) / 2,
                            reserved >= 2,
                    ;
                    assert(!band_parseable(sector@, band as int, reserved as int, size, pov));
                }
                return Err(crate::Error::RingDataTruncated);
            }
            proof {
                assert(pairs * 2 + 2 <= reserved) by (nonlinear_arith)
                    requires
                        pairs <= (reserved - 2) / 2,
                        reserved >= 2,
                ;
            }
            let band_pov = sector[base + 1];
            let ghost grid_before = self.viewshed@;
            let mut index: usize = 0;
            while index < pairs
                invariant
                    index <= pairs,
                    pov == self.pov_id,
                    pov == old(self).pov_id,
                    size == old(self).viewshed@.len(),
                    reserved == self.reserved_ring_size,
                    reserved == old(self).reserved_ring_size,
                    self.viewshed@.len() == size,
                    sector@.len() == sector_len,
                    sector@.len() >= base + reserved,
                    pairs * 2 + 2 <= reserved,
                    pairs == sector@[base as int] as int / 2,
                    band_pov == sector@[base + 1],
                    base == (band as int) * (reserved as int),
                    band < total_bands,
                    self.viewshed@ == apply_pairs(
                        grid_before,
                        sector@,
                        base as int,
                        index as int,
                        pov,
                    ),
                    forall|i: int|
                        band_pov == pov && 0 <= i < index ==> (#[trigger] sector@[base + 1 + 2
                            * i]) < size && sector@[base + 2 + 2 * i] < size,
                decreases pairs - index,
            {
                let opening = sector[base + 1 + 2 * index];
                let closing = sector[base + 2 + 2 * index];
                if band_pov == self.pov_id {
                    if opening as usize >= self.viewshed.len() || closing as usize
                        >= self.viewshed.len() {
                        proof {
                            assert(0 <= index < sector@[base as int] as int / 2);
                            assert(!((sector@[base + 1 + 2 * (index as int)]) < size && sector@[
                                base + 2 + 2 * (index as int)] < size));
                            assert(!band_parseable(
                                sector@,
                                band as int,
                                reserved as int,
                                size,
                                pov,
                            ));
                        }
                        return Err(crate::Error::RingDataTruncated);
                    }
                    self.populate_viewshed(opening as usize, closing as usize);
                }
                index = index + 1;
            }
            proof {
                assert(band_parseable(sector@, band as int, reserved as int, size, pov));
                assert(self.viewshed@ == apply_band(grid_before, sector@, base as int, pov));
            }
            band = band + 1;
        }
        Ok(())
    }

    /// Extract and convert a single viewshed from all the ring data for
    /// all possible viewsheds.
    pub fn convert(
        dem: &crate::dem::DEM,
        pov_id: u32,
        all_ring_data: &Vec<Vec<u32>>,
        reserved_ring_size: usize,
    ) -> (r: Result<Vec<String>, crate::Error>)
        requires
            dem.wf(),
            2 * dem.computable_points_count <= u32::MAX,
            reserved_ring_size <= 0xFFFF_FFFF,
        ensures
            r is Ok <==> convert_ok(
                all_ring_data.deep_view(),
                2 * dem.computable_points_count,
                reserved_ring_size as int,
                dem.size as int,
                pov_id,
            ),
            r matches Ok(rows) ==> {
                let grid = grid_after_sectors(
                    blank_grid(dem.size as nat),
                    all_ring_data.deep_view(),
                    all_ring_data@.len() as int,
                    reserved_ring_size as int,
                    pov_id,
                    2 * dem.computable_points_count,
                ).update(pov_id as int, 4u8);
                &&& rows@.len() == dem.width
                &&& forall|y: int|
                    0 <= y < dem.width ==> (#[trigger] rows@[y])@ == row_view(
                        grid.subrange(y * dem.width, y * dem.width + dem.width),
                    )
            },
    {
        let total_bands = dem.computable_points_count * 2;
        if pov_id >= dem.size {
            return Err(crate::Error::RingDataTruncated);
        }
        let mut blank: Vec<u8> = Vec::new();
        let mut fill: u32 = 0;
        while fill < dem.size
            invariant
                fill <= dem.size,
                blank@.len() == fill,
                forall|i: int| 0 <= i < fill ==> blank@[i] == 0u8,
            decreases dem.size - fill,
        {
            blank.push(0);
            fill = fill + 1;
        }
        proof {
            assert(blank@ =~= blank_grid(dem.size as nat));
        }
        let mut outputter = Self { reserved_ring_size, pov_id, viewshed: blank };

        let ghost all = all_ring_data.deep_view();
        let mut s: usize = 0;
        while s < all_ring_data.len()
            invariant
                s <= all_ring_data@.len(),
                all == all_ring_data.deep_view(),
                all.len() == all_ring_data@.len(),
                dem.wf(),
                2 * dem.computable_points_count <= u32::MAX,
                total_bands == 2 * dem.computable_points_count,
                reserved_ring_size <= 0xFFFF_FFFF,
                pov_id < dem.size,
                outputter.pov_id == pov_id,
                outputter.reserved_ring_size == reserved_ring_size,
                outputter.viewshed@.len() == dem.size,
                outputter.viewshed@ == grid_after_sectors(
                    blank_grid(dem.size as nat),
                    all,
                    s as int,
                    reserved_ring_size as int,
                    pov_id,
                    total_bands as int,
                ),
                forall|j: int|
                    0 <= j < s ==> (#[trigger] all[j]).len() == total_bands as int
                        * reserved_ring_size && sector_parseable(
                        all[j],
                        total_bands as int,
                        reserved_ring_size as int,
                        dem.size as int,
                        pov_id,
                    ),
            decreases all_ring_data@.len() - s,
        {
            let sector = &all_ring_data[s];
            proof {
                assert(all[s as int] == sector@);
                assert((total_bands as u64) * (reserved_ring_size as u64) <= 0xFFFF_FFFFu64
                    * 0xFFFF_FFFFu64) by (nonlinear_arith)
                    requires
                        total_bands <= 0xFFFF_FFFFu32,
                        reserved_ring_size <= 0xFFFF_FFFF,
                ;
            }
            if (sector.len() as u64) != (total_bands as u64) * (reserved_ring_size as u64) {
                return Err(crate::Error::RingDataTruncated);
            }
            match outputter.parse_sector(sector, total_bands) {
                Ok(()) => {},
                Err(e) => {
                    return Err(e);
                },
            }
            s = s + 1;
        }

        outputter.viewshed[pov_id as usize] = 4;

        let width = dem.width as usize;
        let ghost grid = outputter.viewshed@;
        let mut rows: Vec<String> = Vec::new();
        let mut y: usize = 0;
        while y < width
            invariant
                y <= width,
                width == dem.width,
                dem.wf(),
                grid == outputter.viewshed@,
                outputter.viewshed@.len() == dem.size,
                rows@.len() == y,
                forall|j: int|
                    0 <= j < y ==> (#[trigger] rows@[j])@ == row_view(
                        grid.subrange(j * width, j * width + width),
                    ),
            decreases width - y,
        {
            proof {
                assert((y + 1) * width <= width * width) by (nonlinear_arith)
                    requires
                        y + 1 <= width,
                        width >= 0,
                ;
                assert(y * width + width == (y + 1) * width) by (nonlinear_arith);
            }
            let row = render_row(&outputter.viewshed, y * width, width);
            rows.push(row);
            y = y + 1;
        }
        Ok(rows)
    }
}

/// A grid of untouched marks.
pub open spec fn blank_grid(size: nat) -> Seq<u8> {
    Seq::new(size, |i: int| 0u8)
}

/// The grid after the first `upto` sectors' ring data is drawn.
pub open spec fn grid_after_sectors(
    initial: Seq<u8>,
    all: Seq<Seq<u32>>,
    upto: int,
    reserved: int,
    pov_id: u32,
    total_bands: int,
) -> Seq<u8>
    decreases upto,
{
    if upto <= 0 {
        initial
    } else {
        apply_sector_upto(
            grid_after_sectors(initial, all, upto - 1, reserved, pov_id, total_bands),
            all[upto - 1],
            reserved,
            pov_id,
            total_bands,
        )
    }
}

/// Whether a viewshed can be reconstructed from the ring data: the
/// observer is a real cell and every sector's buffer has the declared
/// shape.
pub open spec fn convert_ok(
    all: Seq<Seq<u32>>,
    total_bands: int,
    reserved: int,
    size: int,
    pov_id: u32,
) -> bool {
    &&& pov_id < size
    &&& forall|j: int|
        0 <= j < all.len() ==> (#[trigger] all[j]).len() == total_bands * reserved
            && sector_parseable(all[j], total_bands, reserved, size, pov_id)
}

/// The glyph for one viewshed mark.
pub open spec fn mark_char(m: u8) -> char {
    if m == 1 {
        '+'
    } else if m == 2 {
        '-'
    } else if m == 3 {
        '±'
    } else if m == 4 {
        'o'
    } else {
        '.'
    }
}

/// One row of marks as text: glyphs separated by single spaces.
pub open spec fn row_view(codes: Seq<u8>) -> Seq<char>
    decreases codes.len(),
{
    if codes.len() <= 0 {
        Seq::empty()
    } else if codes.len() == 1 {
        seq![mark_char(codes[0])]
    } else {
        row_view(codes.drop_last()) + seq![' '] + seq![mark_char(codes.last())]
    }
}

/// One mark's glyph as text.
fn mark_str(m: u8) -> (s: &'static str)
    ensures
        s@ == seq![mark_char(m)],
{
    proof {
        reveal_strlit(".");
        reveal_strlit("+");
        reveal_strlit("-");
        reveal_strlit("\u{b1}");
        reveal_strlit("o");
    }
    match m {
        1 => "+",
        2 => "-",
        3 => "\u{b1}",
        4 => "o",
        _ => ".",
    }
}

/// One row of the viewshed grid as text.
fn render_row(codes: &Vec<u8>, start: usize, width: usize) -> (s: String)
    requires
        start + width <= codes@.len(),
    ensures
        s@ == row_view(codes@.subrange(start as int, start + width)),
{
    let ghost sub = codes@.subrange(start as int, start + width);
    let codes_len = codes.len();
    let mut s = String::new();
    let mut x: usize = 0;
    while x < width
        invariant
            x <= width,
            start + width <= codes@.len(),
            codes@.len() == codes_len,
            sub == codes@.subrange(start as int, start + width),
            s@ == row_view(sub.take(x as int)),
        decreases width - x,
    {
        if x > 0 {
            s.append(" ");
        }
        s.append(mark_str(codes[start + x]));
        proof {
            reveal_strlit(" ");
            assert(sub.take(x + 1).drop_last() =~= sub.take(x as int));
            assert(sub.take(x + 1).last() == codes@[start + x]);
            assert(s@ == row_view(sub.take(x + 1)));
        }
        x = x + 1;
    }
    proof {
        assert(sub.take(width as int) =~= sub);
    }
    s
}

} // verus!
