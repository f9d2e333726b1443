use spotty::render::texture_atlas::{keep_intersection, FreeRange, TextureAtlas};

#[test]
fn range_intersect() {
    assert_eq!(
        keep_intersection(
            &[FreeRange::new(0, 10)],
            &[FreeRange::new(2, 4), FreeRange::new(8, 10)]
        ),
        &[FreeRange::new(2, 4), FreeRange::new(8, 10)]
    )
}

#[test]
fn intersection_of_partial_overlaps() {
    assert_eq!(
        keep_intersection(
            &[FreeRange::new(0, 5), FreeRange::new(7, 12)],
            &[FreeRange::new(3, 9)]
        ),
        vec![FreeRange::new(3, 5), FreeRange::new(7, 9)]
    );
    assert_eq!(keep_intersection(&[FreeRange::new(0, 2)], &[FreeRange::new(2, 4)]), vec![]);
    assert_eq!(keep_intersection(&[], &[FreeRange::new(2, 4)]), vec![]);
}

#[test]
fn free_range_split_and_contains() {
    let range = FreeRange::new(2, 8);
    assert_eq!(range.len(), 6);
    assert!(range.contains(2));
    assert!(!range.contains(8));
    assert_eq!(range.split(5), Some((FreeRange::new(2, 5), FreeRange::new(5, 8))));
    assert_eq!(range.split(8), None);
}

#[test]
fn new_atlas() {
    let _atlas = TextureAtlas::new(16);
}

#[test]
fn reserve_places_rectangles() {
    let mut atlas = TextureAtlas::new(8);
    assert_eq!(atlas.reserve(3, 2), Some([0, 0]));
    assert_eq!(atlas.reserve(3, 2), Some([3, 0]));
    assert_eq!(atlas.reserve(5, 2), Some([0, 2]));
    assert_eq!(atlas.reserve(9, 1), None);
    assert_eq!(atlas.reserve(1, 8), None);
}

#[test]
fn reserve_takes_the_narrowest_fitting_range() {
    let mut atlas = TextureAtlas::new(10);
    assert_eq!(atlas.reserve(2, 1), Some([0, 0]));
    assert_eq!(atlas.reserve(3, 1), Some([2, 0]));
    // row 0 now has [5, 10) free; a 5-wide reserve still fits there
    assert_eq!(atlas.reserve(5, 1), Some([5, 0]));
    assert_eq!(atlas.reserve(1, 1), Some([0, 1]));
}
