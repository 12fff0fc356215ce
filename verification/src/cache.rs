//! Where a sector's compiled data lives on disk.
//!
//! Band deltas and distances are cached per DEM width and sector angle,
//! under `<state>/total-viewsheds/<width>/band_deltas/<angle>.bin` and
//! `…/distances/<angle>.bin`.  This module builds those paths, proved
//! character for character; reading and writing the files is the
//! caller's, which also probes whether both files are already present.

use vstd::prelude::*;
use vstd::string::StringExecFns;

verus! {

/// The decimal digit character for one digit value.
pub open spec fn digit_char(d: int) -> char {
    if d == 0 {
        '0'
    } else if d == 1 {
        '1'
    } else if d == 2 {
        '2'
    } else if d == 3 {
        '3'
    } else if d == 4 {
        '4'
    } else if d == 5 {
        '5'
    } else if d == 6 {
        '6'
    } else if d == 7 {
        '7'
    } else if d == 8 {
        '8'
    } else {
        '9'
    }
}

/// The decimal numeral of a non-negative integer, most significant digit
/// first.
pub open spec fn decimal_of(n: int) -> Seq<char>
    decreases n,
{
    if n < 10 {
        seq![digit_char(n)]
    } else {
        decimal_of(n / 10) + seq![digit_char(n % 10)]
    }
}

/// One decimal digit as text.
fn digit_str(d: u32) -> (s: &'static str)
    requires
        d < 10,
    ensures
        s@ == seq![digit_char(d as int)],
{
    proof {
        reveal_strlit("0");
        reveal_strlit("1");
        reveal_strlit("2");
        reveal_strlit("3");
        reveal_strlit("4");
        reveal_strlit("5");
        reveal_strlit("6");
        reveal_strlit("7");
        reveal_strlit("8");
        reveal_strlit("9");
    }
    match d {
        0 => "0",
        1 => "1",
        2 => "2",
        3 => "3",
        4 => "4",
        5 => "5",
        6 => "6",
        7 => "7",
        8 => "8",
        _ => "9",
    }
}

/// A number as its decimal numeral.
pub fn u32_decimal(n: u32) -> (s: String)
    ensures
        s@ == decimal_of(n as int),
    decreases n,
{
    if n < 10 {
        digit_str(n).to_owned()
    } else {
        let mut s = u32_decimal(n / 10);
        s.append(digit_str(n % 10));
        s
    }
}

/// `Cache`
pub struct Cache {
    /// Total viewshed's own path on the file system.
    pub base_directory: String,
    /// The base directory for all the band data.
    pub band_deltas_directory: String,
    /// The base directory for all the distance data.
    pub distances_directory: String,
    /// The path to a band deltas cache, specific to both a DEM size and
    /// sector angle.
    pub band_deltas_path: String,
    /// The path to a distances cache, specific to both a DEM size and
    /// sector angle.
    pub distances_path: String,
    /// Whether both cache files were already present when the caller
    /// probed for them.
    pub is_cache_exists: bool,
}

impl Cache {
    /// Build the cache paths for one DEM width and sector angle.  The
    /// caller, which owns all file access, reports whether each of the
    /// two files is already on disk.
    pub fn new(
        state_directory: &str,
        dem_width: u32,
        angle: u16,
        band_deltas_present: bool,
        distances_present: bool,
    ) -> (r: Self)
        ensures
            r.base_directory@ == state_directory@ + "/total-viewsheds/"@ + decimal_of(
                dem_width as int,
            ),
            r.band_deltas_directory@ == r.base_directory@ + "/band_deltas"@,
            r.distances_directory@ == r.base_directory@ + "/distances"@,
            r.band_deltas_path@ == r.band_deltas_directory@ + "/"@ + decimal_of(angle as int)
                + ".bin"@,
            r.distances_path@ == r.distances_directory@ + "/"@ + decimal_of(angle as int)
                + ".bin"@,
            r.is_cache_exists == (band_deltas_present && distances_present),
    {
        let mut base_directory = state_directory.to_owned();
        base_directory.append("/total-viewsheds/");
        let width_numeral = u32_decimal(dem_width);
        base_directory.append(width_numeral.as_str());

        let mut band_deltas_directory = base_directory.clone();
        band_deltas_directory.append("/band_deltas");
        let mut distances_directory = base_directory.clone();
        distances_directory.append("/distances");

        let angle_numeral = u32_decimal(angle as u32);
        let mut band_deltas_path = band_deltas_directory.clone();
        band_deltas_path.append("/");
        band_deltas_path.append(angle_numeral.as_str());
        band_deltas_path.append(".bin");
        let mut distances_path = distances_directory.clone();
        distances_path.append("/");
        distances_path.append(angle_numeral.as_str());
        distances_path.append(".bin");

        let is_cache_exists = band_deltas_present && distances_present;
        Self {
            base_directory,
            band_deltas_directory,
            distances_directory,
            band_deltas_path,
            distances_path,
            is_cache_exists,
        }
    }
}

} // verus!
