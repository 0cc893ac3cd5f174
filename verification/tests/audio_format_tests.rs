use player::audio_format::{conversion_layout, converted_samples, plane_actions, PlaneAction};

#[test]
fn planar_layout_has_a_plane_per_channel() {
    assert_eq!(conversion_layout(true, 2, 4, 1024), (2, 4096));
    assert_eq!(conversion_layout(false, 2, 2, 1024), (1, 4096));
    assert_eq!(conversion_layout(false, 6, 2, 0), (1, 0));
}

#[test]
fn converted_sample_counts() {
    assert_eq!(converted_samples(true, 2, 1000), 2000);
    assert_eq!(converted_samples(false, 2, 1000), 1000);
}

#[test]
fn plane_allocation_actions() {
    let sizes = [Some(4096), Some(100), None, Some(4096), None, None, None, None];
    let actions = plane_actions(&sizes, 4, 3, 4096);
    assert_eq!(
        actions,
        vec![
            PlaneAction::Keep,
            PlaneAction::Allocate,
            PlaneAction::Allocate,
            PlaneAction::Free,
            PlaneAction::Unused,
            PlaneAction::Unused,
            PlaneAction::Unused,
            PlaneAction::Unused,
        ]
    );
}
