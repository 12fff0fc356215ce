//! Sizing for a whole computation: the kernel constants and the ring
//! buffer reservation, derived once from the DEM.
//!
//! The sector loop itself lives with the caller: per sector it projects
//! the axes, compiles the band deltas through [`crate::band_of_sight`],
//! and evaluates the visibility angles, handing each band's verdicts to
//! [`crate::kernel`].  Rings per kilometre are carried in thousandths so
//! the reservation stays in whole numbers.

use vstd::prelude::*;

verus! {

/// Handles all the computations.
pub struct Compute {
    /// Where to run the kernel computations.
    pub method: crate::config::ComputeType,
    /// The constants for each kernel computation.
    pub constants: crate::kernel::Constants,
    /// The amount of reserved memory for ring data, over all bands.
    pub reserved_rings: usize,
}

impl Compute {
    /// Derive the kernel constants and the ring reservation from a DEM.
    /// `rings_per_km_thousandths` is the expected number of visible rings
    /// per kilometre of band, scaled by one thousand.
    pub fn new(
        method: crate::config::ComputeType,
        dem: &crate::dem::DEM,
        rings_per_km_thousandths: u32,
    ) -> (r: Result<Self, crate::Error>)
        requires
            dem.wf(),
        ensures
            r is Ok <==> 2 * dem.computable_points_count <= u32::MAX
                && Self::spec_ring_count_per_band(
                rings_per_km_thousandths as int,
                dem.max_line_of_sight as int,
            ) <= u32::MAX && 2 * dem.computable_points_count
                * Self::spec_ring_count_per_band(
                rings_per_km_thousandths as int,
                dem.max_line_of_sight as int,
            ) <= usize::MAX,
            r matches Ok(c) ==> {
                &&& c.method == method
                &&& c.constants.wf()
                &&& c.constants.total_bands == 2 * dem.computable_points_count
                &&& c.constants.max_los_as_points == dem.max_los_as_points
                &&& c.constants.dem_width == dem.width
                &&& c.constants.tvs_width == dem.tvs_width
                &&& c.constants.reserved_rings_per_band == Self::spec_ring_count_per_band(
                    rings_per_km_thousandths as int,
                    dem.max_line_of_sight as int,
                )
                &&& c.reserved_rings == c.constants.total_bands
                    * c.constants.reserved_rings_per_band
            },
    {
        proof {
            assert(dem.tvs_width * dem.tvs_width <= 0xFFFF * 0xFFFF) by (nonlinear_arith)
                requires
                    dem.tvs_width <= 0xFFFF,
            ;
            assert(dem.tvs_width <= 0xFFFF);
        }
        if dem.computable_points_count > u32::MAX / 2 {
            return Err(crate::Error::ConfigInvalid);
        }
        let total_bands = dem.computable_points_count * 2;
        let rings_per_band_wide = Self::ring_count_per_band(
            rings_per_km_thousandths,
            dem.max_line_of_sight,
        );
        if rings_per_band_wide > 0xFFFF_FFFF {
            return Err(crate::Error::ConfigInvalid);
        }
        let rings_per_band = rings_per_band_wide as u32;
        let constants = crate::kernel::Constants {
            total_bands,
            max_los_as_points: dem.max_los_as_points,
            dem_width: dem.width,
            tvs_width: dem.tvs_width,
            reserved_rings_per_band: rings_per_band,
        };
        proof {
            assert((total_bands as u64) * (rings_per_band as u64) <= 0xFFFF_FFFFu64
                * 0xFFFF_FFFFu64) by (nonlinear_arith)
                requires
                    total_bands <= 0xFFFF_FFFFu32,
                    rings_per_band <= 0xFFFF_FFFFu32,
            ;
        }
        let total_reserved = (total_bands as u64) * (rings_per_band as u64);
        if total_reserved > usize::MAX as u64 {
            return Err(crate::Error::ConfigInvalid);
        }
        Ok(Self { method, constants, reserved_rings: total_reserved as usize })
    }

    /// The expected number of rings per band, as a mathematical function.
    pub open spec fn spec_ring_count_per_band(rings_per_km_thousandths: int, max_los: int) -> int {
        rings_per_km_thousandths * max_los / 1_000_000
    }

    /// Calculate the expected number of rings per band of sight: the band
    /// is `max_line_of_sight / 1000` kilometres long.
    pub fn ring_count_per_band(rings_per_km_thousandths: u32, max_line_of_sight: u32) -> (r: u64)
        ensures
            r == Self::spec_ring_count_per_band(
                rings_per_km_thousandths as int,
                max_line_of_sight as int,
            ),
    {
        proof {
            assert((rings_per_km_thousandths as u64) * (max_line_of_sight as u64)
                <= 0xFFFF_FFFFu64 * 0xFFFF_FFFFu64) by (nonlinear_arith)
                requires
                    rings_per_km_thousandths <= 0xFFFF_FFFFu32,
                    max_line_of_sight <= 0xFFFF_FFFFu32,
            ;
        }
        let product = (rings_per_km_thousandths as u64) * (max_line_of_sight as u64);
        product / 1_000_000
    }
}

} // verus!
