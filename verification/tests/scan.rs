use fast_morphology::{
    group_scan_points, scan_kernel, scan_se, sort_points, FilterBoundsProcess, FlatSe,
    AnalyzedSe, KernelShape, MorphologyThreadingPolicy, ImageSize, ScanPoint,
};

fn fb(x: i32, y: i32, size: u16) -> FilterBoundsProcess {
    FilterBoundsProcess { x, y, size }
}

#[test]
fn group_points_into_runs() {
    let points = [
        ScanPoint::new(1, 0),
        ScanPoint::new(0, 0),
        ScanPoint::new(-1, 1),
        ScanPoint::new(2, 0),
        ScanPoint::new(5, 0),
        ScanPoint::new(0, 1),
    ];
    let runs = group_scan_points(&points);
    assert_eq!(runs, vec![fb(0, 0, 3), fb(5, 0, 1), fb(-1, 1, 2)]);
}

#[test]
fn last_lone_point_gets_no_run() {
    // The last point starts a run of its own, which is not emitted.
    let points = [ScanPoint::new(0, 0), ScanPoint::new(2, 0)];
    assert_eq!(group_scan_points(&points), vec![fb(0, 0, 1)]);
    let single = [ScanPoint::new(4, 1)];
    assert_eq!(group_scan_points(&single), vec![fb(4, 1, 1)]);
    let joined = [ScanPoint::new(1, 0), ScanPoint::new(0, 0)];
    assert_eq!(group_scan_points(&joined), vec![fb(0, 0, 2)]);
    assert_eq!(group_scan_points(&[]), Vec::<FilterBoundsProcess>::new());
}

#[test]
fn runs_expand_to_the_sorted_points() {
    let points = [
        ScanPoint::new(3, 2),
        ScanPoint::new(-2, -1),
        ScanPoint::new(4, 2),
        ScanPoint::new(-1, -1),
        ScanPoint::new(7, 2),
    ];
    let sorted = sort_points(&points);
    let mut expanded = Vec::new();
    for run in group_scan_points(&points) {
        for t in 0..run.size as i32 {
            expanded.push(ScanPoint::new(run.x + t, run.y));
        }
    }
    // All but the last point, which starts a run of its own.
    assert_eq!(expanded, sorted[..4].to_vec());
    assert_eq!(
        sorted,
        vec![
            ScanPoint::new(-2, -1),
            ScanPoint::new(-1, -1),
            ScanPoint::new(3, 2),
            ScanPoint::new(4, 2),
            ScanPoint::new(7, 2)
        ]
    );
}

#[test]
fn scan_cross_element() {
    let se = [0u8, 1, 0, 1, 1, 1, 0, 1, 0];
    let analyzed = scan_se(&se, KernelShape::new(3, 3));
    assert!(!analyzed.is_empty);
    assert_eq!(analyzed.original_se, se.to_vec());
    assert_eq!(
        analyzed.left_front.element_offsets,
        vec![
            ScanPoint::new(0, -1),
            ScanPoint::new(-1, 0),
            ScanPoint::new(0, 0),
            ScanPoint::new(1, 0),
            ScanPoint::new(0, 1)
        ]
    );
    assert_eq!(analyzed.left_front.filter_bounds, vec![fb(0, -1, 1), fb(-1, 0, 3)]);
}

#[test]
fn scan_wide_element() {
    // 4 wide and 2 high: the centre is column 2, row 1.
    let se = [1u8, 0, 0, 1, 0, 1, 1, 0];
    let analyzed = scan_se(&se, KernelShape::new(4, 2));
    assert_eq!(
        analyzed.left_front.element_offsets,
        vec![
            ScanPoint::new(-2, -1),
            ScanPoint::new(1, -1),
            ScanPoint::new(-1, 0),
            ScanPoint::new(0, 0)
        ]
    );
    let empty = scan_se(&[0u8; 4], KernelShape::new(2, 2));
    assert!(empty.is_empty);
}

#[test]
fn scan_1d_kernel() {
    assert_eq!(
        scan_kernel(&[0u8, 1, 1, 1, 1]),
        vec![
            ScanPoint::new(-1, 0),
            ScanPoint::new(0, 0),
            ScanPoint::new(1, 0),
            ScanPoint::new(2, 0)
        ]
    );
}

#[test]
fn flat_and_analyzed_elements() {
    let flat = FlatSe::new(vec![ScanPoint::default()], vec![fb(0, 0, 1)]);
    let analyzed = AnalyzedSe::new(vec![1], flat);
    assert!(!analyzed.is_empty);
    let empty = AnalyzedSe::new(vec![0], FlatSe::new(vec![], vec![]));
    assert!(empty.is_empty);
}

#[test]
fn thread_counts() {
    let big = ImageSize::new(1024, 1024);
    assert_eq!(MorphologyThreadingPolicy::Single.thread_count(big, 8), 1);
    assert_eq!(MorphologyThreadingPolicy::Fixed(3).thread_count(big, 8), 3);
    assert_eq!(MorphologyThreadingPolicy::Adaptive.thread_count(big, 8), 8);
    assert_eq!(MorphologyThreadingPolicy::Adaptive.thread_count(big, 32), 16);
    assert_eq!(MorphologyThreadingPolicy::Adaptive.thread_count(ImageSize::new(10, 10), 8), 1);
    assert!(matches!(MorphologyThreadingPolicy::default(), MorphologyThreadingPolicy::Adaptive));
}
