//! The axis orderings on a 5-wide grid, against known projections.

use total_viewsheds::axes::Axes;

/// An order-preserving unsigned encoding of a float.
fn distance_key(d: f64) -> u64 {
    let bits = d.to_bits();
    if bits & 0x8000_0000_0000_0000 != 0 {
        !bits
    } else {
        bits | 0x8000_0000_0000_0000
    }
}

fn calculate_distances(width: u32, angle: f64) -> Vec<f64> {
    let mut distances = Vec::new();
    let sine_of_angle = angle.to_radians().sin();
    let cosine_of_angle = angle.to_radians().cos();
    let range = (-(i64::from(width) - 1)..=0).rev();
    for y in range {
        for x in 0..width {
            let left = f64::from(x) * sine_of_angle;
            let right = y as f64 * cosine_of_angle;
            distances.push(left - right);
        }
    }
    distances
}

/// Project a sector's two axes and let the library order the cells.
fn calculate_axes_at_angle(width: u32, shifted_angle: f64) -> (Axes, Vec<f64>) {
    let sight_distances = calculate_distances(width, shifted_angle);
    let sector_distances = calculate_distances(width, shifted_angle + 90.0);
    let sight_keys: Vec<u64> = sight_distances.iter().map(|&d| distance_key(d)).collect();
    let sector_keys: Vec<u64> = sector_distances.iter().map(|&d| distance_key(d)).collect();
    let mut axes = Axes::new(width).unwrap();
    axes.compute(&sight_keys, &sector_keys);
    (axes, sight_distances)
}

/// Turn the id-to-rank map back into the rank-to-id ordering.
fn extract_from_mapped(map: &[usize]) -> Vec<u64> {
    let mut unmapped = vec![0; map.len()];
    for (index, id) in map.iter().enumerate() {
        unmapped[*id] = index as u64;
    }
    unmapped
}

#[test]
fn at_0_degrees() {
    // To prevent point alignments 0 degrees still gets a 'shift angle'
    // applied, here in 32-bit like the sector driver's.
    let (axes, sight_distances) = calculate_axes_at_angle(5, f64::from(0.0f32 + 0.001f32));
    let distances: Vec<f32> = sight_distances.iter().map(|&d| d as f32).collect();

    assert_eq!(
        distances,
        [
            0.0, 1.7453292e-5, 3.4906585e-5, 5.235988e-5, 6.981317e-5,
            1.0, 1.0000174,    1.0000349,    1.0000523,   1.0000699,
            2.0, 2.0000174,    2.0000348,    2.0000525,   2.0000699,
            3.0, 3.0000174,    3.0000348,    3.0000525,   3.0000699,
            4.0, 4.0000176,    4.000035,     4.0000525,   4.0000696
        ]
    );

    assert_eq!(
        extract_from_mapped(&axes.sight_ordered_map),
        [
            0,  1,  2,  3,  4,
            5,  6,  7,  8,  9,
            10, 11, 12, 13, 14,
            15, 16, 17, 18, 19,
            20, 21, 22, 23, 24
        ]
    );

    assert_eq!(
        axes.sector_ordered,
        [
            20, 15, 10, 5, 0,
            21, 16, 11, 6, 1,
            22, 17, 12, 7, 2,
            23, 18, 13, 8, 3,
            24, 19, 14, 9, 4,
        ]
    );
}

#[test]
fn at_135_degrees() {
    let (axes, sight_distances) = calculate_axes_at_angle(5, f64::from(135.0f32 + 0.001f32));
    let distances: Vec<f32> = sight_distances.iter().map(|&d| d as f32).collect();

    assert_eq!(
        distances,
        [
            0.0,        0.7070944,     1.4141887,     2.121283,      2.8283775,
            -0.7071192, -2.4857438e-5, 0.7070695,     1.4141638,     2.1212583,
            -1.4142385, -0.7071441,    -4.9714876e-5, 0.70704466,    1.414139,
            -2.1213577, -1.4142632,    -0.70716894,   -7.4572315e-5, 0.7070198,
            -2.828477,  -2.1213825,    -1.4142882,    -0.7071938,    -9.942975e-5
        ]
    );

    assert_eq!(
        extract_from_mapped(&axes.sight_ordered_map),
        [
            20, 21, 15, 22, 16,
            10, 23, 17, 11, 5,
            24, 18, 12, 6,  0,
            19, 13, 7,  1,  14,
            8,  2,  9,  3,  4
        ]
    );

    assert_eq!(
        axes.sector_ordered,
        [
            24, 19, 23, 14, 18,
            22, 9,  13, 17, 21,
            4,  8,  12, 16, 20,
            3,  7,  11, 15, 2,
            6,  10, 1,  5,  0
        ]
    );
}

#[test]
fn axes_at_0_degrees() {
    // The same projection with the shift applied in 64-bit.
    let (axes, distances) = calculate_axes_at_angle(5, 0.0 + 0.001);

    assert_eq!(
        distances,
        [
            0.0,                1.7453292519057202e-5, 3.4906585038114403e-5, 5.23598775571716e-5, 6.981317007622881e-5,
            0.9999999998476913, 1.0000174531402104,    1.0000349064327294,    1.0000523597252484,  1.0000698130177674,
            1.9999999996953826, 2.0000174529879016,    2.000034906280421,     2.0000523595729396,  2.000069812865459,
            2.999999999543074,  3.000017452835593,     3.000034906128112,     3.000052359420631,   3.00006981271315,
            3.999999999390765,  4.000017452683284,     4.000034905975803,     4.000052359268322,   4.000069812560842
        ]
    );

    assert_eq!(
        extract_from_mapped(&axes.sight_ordered_map),
        [
            0,  1,  2,  3,  4,
            5,  6,  7,  8,  9,
            10, 11, 12, 13, 14,
            15, 16, 17, 18, 19,
            20, 21, 22, 23, 24
        ]
    );

    assert_eq!(
        axes.sector_ordered,
        [
            20, 15, 10, 5, 0,
            21, 16, 11, 6, 1,
            22, 17, 12, 7, 2,
            23, 18, 13, 8, 3,
            24, 19, 14, 9, 4,
        ]
    );
}

#[test]
fn axes_at_135_degrees() {
    let (axes, distances) = calculate_axes_at_angle(5, 135.0 + 0.001);

    assert_eq!(
        distances,
        [
            0.0,                 0.7070944397373546,   1.4141888794747093,   2.121283319212064,    2.8283777589494186,
           -0.7071191224203434, -2.468268298871923e-5, 0.7070697570543659,   1.4141641967917207,   2.1212586365290753,
           -1.4142382448406867, -0.7071438051033321,  -4.936536597743846e-5, 0.7070450743713772,   1.4141395141087318,
           -2.12135736726103,   -1.4142629275236756,  -0.7071684877863209,  -7.404804896626871e-5, 0.7070203916883884,
           -2.8284764896813734, -2.121382049944019,   -1.4142876102066642,  -0.7071931704693095,  -9.873073195487692e-5
        ]
    );

    assert_eq!(
        extract_from_mapped(&axes.sight_ordered_map),
        [
            20, 21, 15, 22, 16,
            10, 23, 17, 11, 5,
            24, 18, 12, 6,  0,
            19, 13, 7,  1,  14,
            8,  2,  9,  3,  4
        ]
    );

    assert_eq!(
        axes.sector_ordered,
        [
            24, 19, 23, 14, 18,
            22, 9,  13, 17, 21,
            4,  8,  12, 16, 20,
            3,  7,  11, 15, 2,
            6,  10, 1,  5,  0
        ]
    );
}
