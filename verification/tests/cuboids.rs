use bossphorus::data_manager::get_cuboids_and_indices;
use bossphorus::data_manager::Vector3;

fn v(x: u64, y: u64, z: u64) -> Vector3 {
    Vector3 { x, y, z }
}

#[test]
fn cutout_inside_one_cuboid_has_one_window() {
    let cuboids = get_cuboids_and_indices(v(1, 2, 1), v(3, 3, 3), v(4, 4, 4));
    assert_eq!(cuboids, vec![(v(0, 0, 0), (v(1, 2, 1), v(3, 3, 3)))]);
}

#[test]
fn cross_block_cutout_touches_two_cuboids() {
    let cuboids = get_cuboids_and_indices(v(3, 0, 0), v(5, 1, 1), v(4, 4, 4));
    assert_eq!(
        cuboids,
        vec![
            (v(0, 0, 0), (v(3, 0, 0), v(4, 1, 1))),
            (v(1, 0, 0), (v(0, 0, 0), v(1, 1, 1))),
        ]
    );
}

#[test]
fn stop_on_a_boundary_includes_the_boundary_cuboid_with_an_empty_window() {
    let cuboids = get_cuboids_and_indices(v(0, 0, 0), v(8, 1, 1), v(4, 4, 4));
    assert_eq!(
        cuboids,
        vec![
            (v(0, 0, 0), (v(0, 0, 0), v(4, 1, 1))),
            (v(1, 0, 0), (v(0, 0, 0), v(4, 1, 1))),
            (v(2, 0, 0), (v(0, 0, 0), v(0, 1, 1))),
        ]
    );
}

#[test]
fn zero_extent_cutout_has_one_zero_width_window() {
    let cuboids = get_cuboids_and_indices(v(2, 2, 2), v(2, 2, 2), v(4, 4, 4));
    assert_eq!(cuboids, vec![(v(0, 0, 0), (v(2, 2, 2), v(2, 2, 2)))]);
    let cuboids = get_cuboids_and_indices(v(5, 9, 2), v(5, 9, 2), v(4, 4, 4));
    assert_eq!(cuboids, vec![(v(1, 2, 0), (v(1, 1, 2), v(1, 1, 2)))]);
}

#[test]
fn cuboids_come_with_x_slowest_and_z_fastest() {
    let cuboids = get_cuboids_and_indices(v(0, 0, 0), v(5, 5, 5), v(4, 4, 4));
    let indices: Vec<Vector3> = cuboids.iter().map(|c| c.0).collect();
    assert_eq!(
        indices,
        vec![
            v(0, 0, 0),
            v(0, 0, 1),
            v(0, 1, 0),
            v(0, 1, 1),
            v(1, 0, 0),
            v(1, 0, 1),
            v(1, 1, 0),
            v(1, 1, 1),
        ]
    );
    assert_eq!(cuboids[7], (v(1, 1, 1), (v(0, 0, 0), v(1, 1, 1))));
    assert_eq!(cuboids[0], (v(0, 0, 0), (v(0, 0, 0), v(4, 4, 4))));
}

#[test]
fn number_of_cuboids_is_the_product_of_the_axis_counts() {
    let cuboids = get_cuboids_and_indices(v(3, 10, 1), v(21, 11, 40), v(4, 5, 16));
    // x: 0..=5, y: 2..=2, z: 0..=2
    assert_eq!(cuboids.len(), 6 * 1 * 3);
}

#[test]
fn asymmetric_cuboid_size_is_applied_per_axis() {
    let cuboids = get_cuboids_and_indices(v(510, 100, 15), v(514, 101, 17), v(512, 512, 16));
    assert_eq!(
        cuboids,
        vec![
            (v(0, 0, 0), (v(510, 100, 15), v(512, 101, 16))),
            (v(0, 0, 1), (v(510, 100, 0), v(512, 101, 1))),
            (v(1, 0, 0), (v(0, 100, 15), v(2, 101, 16))),
            (v(1, 0, 1), (v(0, 100, 0), v(2, 101, 1))),
        ]
    );
}

#[test]
fn stop_before_start_touches_nothing_when_it_lies_in_an_earlier_cuboid() {
    let cuboids = get_cuboids_and_indices(v(9, 0, 0), v(2, 1, 1), v(4, 4, 4));
    assert_eq!(cuboids.len(), 0);
}

#[test]
fn coordinates_at_the_end_of_the_space_are_decomposed() {
    let top = u64::MAX;
    let cuboids = get_cuboids_and_indices(v(top - 1, 0, 0), v(top, 1, 1), v(1, 4, 4));
    assert_eq!(
        cuboids,
        vec![
            (v(top - 1, 0, 0), (v(0, 0, 0), v(1, 1, 1))),
            (v(top, 0, 0), (v(0, 0, 0), v(0, 1, 1))),
        ]
    );
}

/// Every position of the cutout lies in exactly one window, and no window
/// holds a position outside the cutout.
#[test]
fn windows_cover_the_cutout_exactly_once() {
    let size = v(4, 3, 5);
    let start = v(3, 1, 7);
    let stop = v(13, 9, 15);
    let cuboids = get_cuboids_and_indices(start, stop, size);
    for x in 0..20u64 {
        for y in 0..14u64 {
            for z in 0..22u64 {
                let holders = cuboids
                    .iter()
                    .filter(|(i, (lo, hi))| {
                        i.x * size.x + lo.x <= x
                            && x < i.x * size.x + hi.x
                            && i.y * size.y + lo.y <= y
                            && y < i.y * size.y + hi.y
                            && i.z * size.z + lo.z <= z
                            && z < i.z * size.z + hi.z
                    })
                    .count();
                let inside = start.x <= x
                    && x < stop.x
                    && start.y <= y
                    && y < stop.y
                    && start.z <= z
                    && z < stop.z;
                assert_eq!(holders, if inside { 1 } else { 0 });
            }
        }
    }
}

#[test]
fn vector_is_named_by_its_components() {
    assert_eq!(v(1, 20, 300).to_string(), "x1_y20_z300");
    assert_eq!(v(0, 0, 0).to_string(), "x0_y0_z0");
    assert_eq!(
        v(u64::MAX, 10, 9).to_string(),
        "x18446744073709551615_y10_z9"
    );
}
