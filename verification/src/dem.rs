//! The digital elevation model: a square grid of cells, addressed by flat
//! ids in row-major order.  Elevations themselves are held by the caller;
//! the struct here carries the integer geometry that every other module
//! builds on — the grid width, the line of sight measured in cells, and the
//! computable sub-grid of cells whose full viewshed fits inside the grid.
//!
//! Distances are measured in whole cells throughout: the caller converts a
//! line of sight in meters to cells before constructing a [`DEM`].

use vstd::prelude::*;

verus! {

/// The column of a flat cell id.
pub open spec fn grid_x(width: int, id: int) -> int {
    id % width
}

/// The row of a flat cell id.
pub open spec fn grid_y(width: int, id: int) -> int {
    id / width
}

/// Whether a cell's whole neighbourhood up to `m` cells away fits inside
/// the grid, so that its viewshed can be computed in full.
pub open spec fn point_computable(width: int, m: int, id: int) -> bool {
    &&& m <= grid_x(width, id) <= width - 1 - m
    &&& m <= grid_y(width, id) <= width - 1 - m
}

/// How many of the first `upto` cells are computable.
pub open spec fn count_computable(width: int, m: int, upto: int) -> int
    decreases upto,
{
    if upto <= 0 {
        0
    } else {
        count_computable(width, m, upto - 1) + if point_computable(width, m, upto - 1) {
            1int
        } else {
            0int
        }
    }
}

/// The side of the computable sub-grid.
pub open spec fn computable_side(width: int, m: int) -> int {
    if 2 * m < width {
        width - 2 * m
    } else {
        0
    }
}

/// `DEM`
#[derive(Debug)]
pub struct DEM {
    /// The width of the DEM.
    pub width: u32,
    /// The width of the computable sub-grid within the DEM.
    pub tvs_width: u32,
    /// The total number of points in the DEM.
    pub size: u32,
    /// The maximum distance in metres to search for visible points.
    pub max_line_of_sight: u32,
    /// The maximum distance in terms of points to search.
    pub max_los_as_points: u32,
    /// The total number of points that can have full viewsheds calculated.
    pub computable_points_count: u32,
    /// The number of points in a band of sight, the point of view included.
    pub band_size: u32,
}

impl DEM {
    /// The invariant every constructed `DEM` satisfies.
    pub open spec fn wf(self) -> bool {
        &&& self.width >= 1
        &&& self.width <= 0xFFFF
        &&& self.size == self.width * self.width
        &&& 2 * self.max_los_as_points <= self.width
        &&& self.band_size == self.max_los_as_points + 1
        &&& self.tvs_width == computable_side(self.width as int, self.max_los_as_points as int)
        &&& self.computable_points_count == self.tvs_width * self.tvs_width
        &&& self.computable_points_count == count_computable(
            self.width as int,
            self.max_los_as_points as int,
            self.size as int,
        )
    }

    /// Build a `DEM` from its width, the line of sight in meters, and the
    /// same line of sight converted to a count of cells.  Rejects a line of
    /// sight longer than any cell can fully see.
    pub fn new(width: u32, max_line_of_sight: u32, max_los_as_points: u32) -> (r: Result<
        Self,
        crate::Error,
    >)
        ensures
            r is Ok <==> 1 <= width <= 0xFFFF && 2 * max_los_as_points <= width,
            r matches Ok(dem) ==> {
                &&& dem.wf()
                &&& dem.width == width
                &&& dem.max_line_of_sight == max_line_of_sight
                &&& dem.max_los_as_points == max_los_as_points
            },
    {
        if width < 1 || width > 0xFFFF {
            return Err(crate::Error::ConfigInvalid);
        }
        let max_possible_los_as_points = width / 2;
        if max_los_as_points > max_possible_los_as_points {
            return Err(crate::Error::ConfigInvalid);
        }
        proof {
            assert(width * width <= 0xFFFF * 0xFFFF) by (nonlinear_arith)
                requires
                    width <= 0xFFFF,
            ;
        }
        let size = width * width;
        let mut dem = Self {
            width,
            tvs_width: 0,
            size,
            max_line_of_sight,
            max_los_as_points,
            computable_points_count: 0,
            band_size: max_los_as_points + 1,
        };
        dem.count_computable_points();
        proof {
            lemma_count_computable_all(width as int, max_los_as_points as int);
        }
        let side = isqrt_u64(dem.computable_points_count as u64);
        proof {
            let s = computable_side(width as int, max_los_as_points as int);
            assert(s * s == dem.computable_points_count);
            lemma_isqrt_of_square(s, side as int);
        }
        dem.tvs_width = side as u32;
        Ok(dem)
    }

    /// Count the number of points in the DEM that can have their viewsheds
    /// fully calculated.
    fn count_computable_points(&mut self)
        requires
            old(self).width >= 1,
            old(self).size == old(self).width * old(self).width,
        ensures
            final(self).computable_points_count == count_computable(
                old(self).width as int,
                old(self).max_los_as_points as int,
                old(self).size as int,
            ),
            *final(self) == old(self).spec_set_count(final(self).computable_points_count),
    {
        let w = self.width;
        let m = self.max_los_as_points;
        let mut count: u32 = 0;
        let mut point: u32 = 0;
        proof {
            lemma_count_computable_le(w as int, m as int, self.size as int);
        }
        while point < self.size
            invariant
                point <= self.size,
                count == count_computable(w as int, m as int, point as int),
                count <= point,
                self == old(self),
                self.width >= 1,
                w == self.width,
                m == self.max_los_as_points,
            decreases self.size - point,
        {
            if self.is_point_computable(point) {
                count = count + 1;
            }
            point = point + 1;
        }
        self.computable_points_count = count;
    }

    /// The struct with only the computable count replaced.
    pub open spec fn spec_set_count(self, count: u32) -> Self {
        DEM { computable_points_count: count, ..self }
    }

    /// Whether a point lies far enough from every edge for its full
    /// viewshed to be computed.
    fn is_point_computable(&self, dem_id: u32) -> (b: bool)
        requires
            self.width >= 1,
        ensures
            b == point_computable(
                self.width as int,
                self.max_los_as_points as int,
                dem_id as int,
            ),
    {
        let x = dem_id % self.width;
        let y = dem_id / self.width;
        let m = self.max_los_as_points;
        x >= m && self.width - 1 >= m && x <= self.width - 1 - m && y >= m && y <= self.width - 1
            - m
    }

    /// Convert an original DEM ID to the coordinate system of the
    /// computable points sub-DEM.
    pub fn pov_id_to_tvs_id(&self, pov_id: u32) -> (r: u32)
        requires
            self.wf(),
            pov_id < self.size,
            point_computable(self.width as int, self.max_los_as_points as int, pov_id as int),
        ensures
            r == (grid_y(self.width as int, pov_id as int) - self.max_los_as_points)
                * self.tvs_width + (grid_x(self.width as int, pov_id as int)
                - self.max_los_as_points),
            r < self.computable_points_count,
    {
        proof {
            lemma_grid_bounds(self.width as int, pov_id as int);
        }
        let x = pov_id % self.width - self.max_los_as_points;
        let y = pov_id / self.width - self.max_los_as_points;
        proof {
            let side = self.tvs_width as int;
            assert(x < side && y < side);
            assert(y * side + x < side * side) by (nonlinear_arith)
                requires
                    0 <= x < side,
                    0 <= y < side,
            ;
        }
        y * self.tvs_width + x
    }

    /// Convert a computable sub-DEM ID to its original DEM ID.
    pub fn tvs_id_to_pov_id(&self, tvs_id: u32) -> (r: u32)
        requires
            self.wf(),
            tvs_id < self.computable_points_count,
        ensures
            r == (tvs_id as int / self.tvs_width as int + self.max_los_as_points) * self.width
                + tvs_id as int % self.tvs_width as int + self.max_los_as_points,
            r < self.size,
            point_computable(self.width as int, self.max_los_as_points as int, r as int),
    {
        proof {
            lemma_tvs_to_pov(
                self.width as int,
                self.max_los_as_points as int,
                self.tvs_width as int,
                tvs_id as int,
            );
        }
        let x = tvs_id % self.tvs_width + self.max_los_as_points;
        let y = tvs_id / self.tvs_width + self.max_los_as_points;
        (y * self.width) + x
    }
}

/// Both coordinates of an in-range id are in range.
proof fn lemma_grid_bounds(width: int, id: int)
    requires
        width >= 1,
        0 <= id < width * width,
    ensures
        0 <= grid_x(width, id) < width,
        0 <= grid_y(width, id) < width,
        grid_y(width, id) * width + grid_x(width, id) == id,
{
    assert(0 <= id % width < width && 0 <= id / width < width && (id / width) * width + id % width
        == id) by (nonlinear_arith)
        requires
            width >= 1,
            0 <= id < width * width,
    ;
}

/// The coordinate arithmetic behind `tvs_id_to_pov_id`: the resulting id is
/// in range and lands inside the computable region.
pub proof fn lemma_tvs_to_pov(width: int, m: int, side: int, tvs_id: int)
    requires
        width >= 1,
        m >= 0,
        side == computable_side(width, m),
        0 <= tvs_id < side * side,
    ensures
        side >= 1,
        0 <= tvs_id % side < side,
        0 <= tvs_id / side < side,
        m <= tvs_id % side + m <= width - 1 - m,
        m <= tvs_id / side + m <= width - 1 - m,
        (tvs_id / side + m) * width + tvs_id % side + m < width * width,
        point_computable(width, m, (tvs_id / side + m) * width + tvs_id % side + m),
        grid_x(width, (tvs_id / side + m) * width + tvs_id % side + m) == tvs_id % side + m,
        grid_y(width, (tvs_id / side + m) * width + tvs_id % side + m) == tvs_id / side + m,
{
    assert(side >= 1) by {
        if side == 0 {
            assert(side * side == 0);
        }
    }
    let x0 = tvs_id % side;
    let y0 = tvs_id / side;
    vstd::arithmetic::div_mod::lemma_fundamental_div_mod(tvs_id, side);
    vstd::arithmetic::div_mod::lemma_mod_division_less_than_divisor(tvs_id, side);
    assert(0 <= y0 < side) by (nonlinear_arith)
        requires
            side >= 1,
            0 <= tvs_id < side * side,
            tvs_id == side * y0 + x0,
            0 <= x0 < side,
    ;
    let id = (y0 + m) * width + x0 + m;
    assert(id < width * width) by (nonlinear_arith)
        requires
            0 <= y0 + m <= width - 1,
            0 <= x0 + m <= width - 1,
            width >= 1,
            id == (y0 + m) * width + x0 + m,
    ;
    assert(grid_x(width, id) == x0 + m && grid_y(width, id) == y0 + m) by (nonlinear_arith)
        requires
            width >= 1,
            0 <= x0 + m < width,
            0 <= y0 + m,
            id == (y0 + m) * width + x0 + m,
    ;
}

/// Mapping a computable sub-grid id out to its grid cell and back gives
/// the same id: the two coordinate systems are in exact correspondence.
pub proof fn lemma_tvs_pov_round_trip(width: int, m: int, side: int, tvs_id: int)
    requires
        width >= 1,
        m >= 0,
        side == computable_side(width, m),
        0 <= tvs_id < side * side,
    ensures
        ({
            let pov = (tvs_id / side + m) * width + tvs_id % side + m;
            (grid_y(width, pov) - m) * side + (grid_x(width, pov) - m) == tvs_id
        }),
{
    lemma_tvs_to_pov(width, m, side, tvs_id);
    vstd::arithmetic::div_mod::lemma_fundamental_div_mod(tvs_id, side);
    assert((tvs_id / side) * side + tvs_id % side == tvs_id) by (nonlinear_arith)
        requires
            side >= 1,
            tvs_id == side * (tvs_id / side) + tvs_id % side,
    ;
}

/// The count of computable cells never exceeds the number of cells looked at.
proof fn lemma_count_computable_le(width: int, m: int, upto: int)
    requires
        upto >= 0,
    ensures
        count_computable(width, m, upto) <= upto,
        count_computable(width, m, upto) >= 0,
    decreases upto,
{
    if upto > 0 {
        lemma_count_computable_le(width, m, upto - 1);
    }
}

/// How many columns of a row are computable when only the first `x` cells
/// of row `y` are counted.
spec fn x_clip(width: int, m: int, x: int) -> int {
    if x <= m {
        0
    } else if x - m <= computable_side(width, m) {
        x - m
    } else {
        computable_side(width, m)
    }
}

/// Counting across one row, cell by cell.
proof fn lemma_count_row(width: int, m: int, y: int, x: int)
    requires
        width >= 1,
        m >= 0,
        0 <= y < width,
        0 <= x <= width,
    ensures
        count_computable(width, m, y * width + x) == count_computable(width, m, y * width) + (
        if m <= y <= width - 1 - m {
            x_clip(width, m, x)
        } else {
            0int
        }),
    decreases x,
{
    if x == 0 {
    } else {
        lemma_count_row(width, m, y, x - 1);
        let id = y * width + x - 1;
        assert(grid_x(width, id) == x - 1 && grid_y(width, id) == y) by (nonlinear_arith)
            requires
                width >= 1,
                0 <= x - 1 < width,
                0 <= y,
                id == y * width + x - 1,
        ;
        assert(y * width + x == y * width + (x - 1) + 1);
    }
}

/// Counting across whole rows.
proof fn lemma_count_rows(width: int, m: int, y: int)
    requires
        width >= 1,
        m >= 0,
        0 <= y <= width,
    ensures
        count_computable(width, m, y * width) == computable_side(width, m) * (if y <= m {
            0int
        } else if y - m <= computable_side(width, m) {
            y - m
        } else {
            computable_side(width, m)
        }),
    decreases y,
{
    let side = computable_side(width, m);
    if y == 0 {
    } else {
        lemma_count_rows(width, m, y - 1);
        lemma_count_row(width, m, y - 1, width);
        assert((y - 1) * width + width == y * width) by (nonlinear_arith);
        assert(x_clip(width, m, width) == side);
        if m <= y - 1 <= width - 1 - m {
            assert(y - m <= side);
            assert(side * (y - 1 - m) + side == side * (y - m)) by (nonlinear_arith);
        } else {
            if y - 1 < m {
            } else {
                assert(y - 1 > width - 1 - m);
                assert(y - m - 1 >= side);
            }
        }
    }
}

/// Over the whole grid, the computable cells form a square of side
/// `computable_side`: exactly the cells at least `m` columns and rows
/// away from every edge.
pub proof fn lemma_count_computable_all(width: int, m: int)
    requires
        width >= 1,
        m >= 0,
    ensures
        count_computable(width, m, width * width) == computable_side(width, m) * computable_side(
            width,
            m,
        ),
{
    lemma_count_rows(width, m, width);
    let side = computable_side(width, m);
    if 2 * m < width {
        assert(width - m >= side);
        if width - m <= side {
            assert(width - m == side);
        }
    }
}

/// The integer square root, as a mathematical function: the largest
/// integer whose square does not exceed the argument.
pub open spec fn sqrt_floor(n: int) -> int
    decreases n,
{
    if n <= 0 {
        0
    } else {
        let r = sqrt_floor(n - 1);
        if (r + 1) * (r + 1) <= n {
            r + 1
        } else {
            r
        }
    }
}

/// `sqrt_floor` is squeezed between the neighbouring squares.
pub proof fn lemma_sqrt_floor_bounds(n: int)
    requires
        n >= 0,
    ensures
        sqrt_floor(n) >= 0,
        sqrt_floor(n) * sqrt_floor(n) <= n,
        (sqrt_floor(n) + 1) * (sqrt_floor(n) + 1) > n,
    decreases n,
{
    if n > 0 {
        lemma_sqrt_floor_bounds(n - 1);
        let r = sqrt_floor(n - 1);
        if (r + 1) * (r + 1) <= n {
            assert((r + 2) * (r + 2) > (r + 1) * (r + 1)) by (nonlinear_arith)
                requires
                    r >= 0,
            ;
            if (r + 2) * (r + 2) <= n {
                assert((r + 1) * (r + 1) <= n - 1) by (nonlinear_arith)
                    requires
                        r >= 0,
                        (r + 2) * (r + 2) <= n,
                ;
            }
        }
    }
}

/// Two integers squeezed between the same squares are equal.
pub proof fn lemma_sqrt_unique(n: int, a: int, b: int)
    requires
        a >= 0,
        b >= 0,
        a * a <= n,
        (a + 1) * (a + 1) > n,
        b * b <= n,
        (b + 1) * (b + 1) > n,
    ensures
        a == b,
{
    assert(a <= b) by (nonlinear_arith)
        requires
            a >= 0,
            b >= 0,
            a * a <= n,
            (b + 1) * (b + 1) > n,
    ;
    assert(b <= a) by (nonlinear_arith)
        requires
            a >= 0,
            b >= 0,
            b * b <= n,
            (a + 1) * (a + 1) > n,
    ;
}

/// An integer square root: the largest integer whose square does not
/// exceed the argument.
pub fn isqrt_u64(n: u64) -> (r: u64)
    requires
        n < 0x1_0000_0000_0000,
    ensures
        r * r <= n,
        (r + 1) * (r + 1) > n,
        r == sqrt_floor(n as int),
{
    let mut r: u64 = 0;
    loop
        invariant
            n < 0x1_0000_0000_0000,
            r * r <= n,
            r <= n,
            r <= 0x100_0000,
        ensures
            r * r <= n,
            (r + 1) * (r + 1) > n,
        decreases n - r,
    {
        let next = r + 1;
        proof {
            assert(next * next <= 0x100_0001 * 0x100_0001) by (nonlinear_arith)
                requires
                    0 < next <= 0x100_0001,
            ;
        }
        let sq = next * next;
        if sq > n {
            break ;
        }
        proof {
            assert(next <= 0x100_0000) by (nonlinear_arith)
                requires
                    next >= 1,
                    next * next <= n,
                    n < 0x1_0000_0000_0000,
            ;
            assert(next * next > r * r) by (nonlinear_arith)
                requires
                    next == r + 1,
                    r >= 0,
            ;
            assert(next <= next * next) by (nonlinear_arith)
                requires
                    next >= 1,
            ;
        }
        r = next;
    }
    proof {
        lemma_sqrt_floor_bounds(n as int);
        lemma_sqrt_unique(n as int, r as int, sqrt_floor(n as int));
    }
    r
}

/// An integer square root applied to a perfect square gives the root back.
proof fn lemma_isqrt_of_square(s: int, r: int)
    requires
        s >= 0,
        r >= 0,
        r * r <= s * s,
        (r + 1) * (r + 1) > s * s,
    ensures
        r == s,
{
    assert(r <= s) by (nonlinear_arith)
        requires
            s >= 0,
            r >= 0,
            r * r <= s * s,
    ;
    assert(s <= r) by (nonlinear_arith)
        requires
            s >= 0,
            r >= 0,
            (r + 1) * (r + 1) > s * s,
    ;
}

} // verus!
