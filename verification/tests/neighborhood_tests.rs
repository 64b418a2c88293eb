use pathtracer::neighborhood::generate_neighbor_pixel_coordinate;
use pathtracer::neighborhood::generate_num_sequence;

#[test]
fn interior_pixel_has_48_neighbors() {
    let res = generate_neighbor_pixel_coordinate(10, 10, 600, 600);
    assert_eq!(res.len(), 48);
    assert!(!res.contains(&(10, 10)));
    assert!(res.contains(&(7, 7)));
    assert!(res.contains(&(13, 13)));
    assert!(res.contains(&(10, 9)));
    assert!(!res.contains(&(6, 10)));
    assert!(!res.contains(&(10, 14)));
}

#[test]
fn corner_pixel_neighborhood_is_clipped() {
    let res = generate_neighbor_pixel_coordinate(0, 0, 600, 600);
    // Window columns 0..=3 and rows 0..=3 minus the centre itself.
    assert_eq!(res.len(), 15);
    for &(c, r) in res.iter() {
        assert!(c <= 3 && r <= 3);
        assert!(!(c == 0 && r == 0));
    }
}

#[test]
fn border_pixel_neighborhood_is_clipped() {
    let res = generate_neighbor_pixel_coordinate(599, 10, 600, 600);
    // Columns 596..=599 survive, rows 7..=13, minus the centre.
    assert_eq!(res.len(), 4 * 7 - 1);
    assert!(res.contains(&(596, 7)));
    assert!(!res.contains(&(599, 10)));
}

#[test]
fn neighborhood_is_sorted_and_duplicate_free() {
    let res = generate_neighbor_pixel_coordinate(3, 2, 7, 6);
    for w in res.windows(2) {
        assert!(w[0].0 < w[1].0 || (w[0].0 == w[1].0 && w[0].1 < w[1].1));
    }
}

#[test]
fn num_sequence_first_pass_is_adjacent_pixels() {
    let res = generate_num_sequence(10, 0, 20);
    assert_eq!(res, vec![7, 8, 9, 11, 12, 13]);
}

#[test]
fn num_sequence_widens_with_the_pass() {
    let res = generate_num_sequence(10, 1, 20);
    assert_eq!(res, vec![4, 6, 8, 12, 14, 16]);
    let res = generate_num_sequence(10, 2, 20);
    assert_eq!(res, vec![1, 4, 7, 13, 16, 19]);
}

#[test]
fn num_sequence_clips_at_line_ends() {
    let res = generate_num_sequence(1, 1, 5);
    assert_eq!(res, vec![3]);
    let res = generate_num_sequence(0, 0, 3);
    assert_eq!(res, vec![1, 2]);
    let res = generate_num_sequence(0, 0, 1);
    assert_eq!(res, Vec::<usize>::new());
}
