use vs_placebo::planes::{get_planes_arg, PlaneError};

fn selected(process: &[bool]) -> usize {
    process.iter().filter(|p| **p).count()
}

#[test]
fn empty_list_selects_all_planes() {
    let process = get_planes_arg(&[], 3).unwrap();
    assert_eq!(process, vec![true, true, true]);
    assert_eq!(selected(&process), 3);
}

#[test]
fn empty_list_on_single_plane() {
    assert_eq!(get_planes_arg(&[], 1), Ok(vec![true]));
}

#[test]
fn single_plane_selected() {
    let process = get_planes_arg(&[1], 3).unwrap();
    assert_eq!(process, vec![false, true, false]);
    assert_eq!(selected(&process), 1);
}

#[test]
fn selection_order_does_not_matter() {
    assert_eq!(get_planes_arg(&[2, 0], 3), Ok(vec![true, false, true]));
    assert_eq!(get_planes_arg(&[0, 2], 3), Ok(vec![true, false, true]));
}

#[test]
fn all_planes_listed() {
    let process = get_planes_arg(&[2, 1, 0], 3).unwrap();
    assert_eq!(process, vec![true, true, true]);
    assert_eq!(selected(&process), 3);
}

#[test]
fn selected_count_equals_list_length() {
    for list in [vec![0], vec![1], vec![2], vec![0, 1], vec![1, 2], vec![2, 0], vec![1, 0, 2]] {
        let process = get_planes_arg(&list, 3).unwrap();
        assert_eq!(process.len(), 3);
        assert_eq!(selected(&process), list.len());
    }
}

#[test]
fn index_out_of_range_is_refused() {
    assert_eq!(get_planes_arg(&[3], 3), Err(PlaneError::OutOfRange { index: 3, plane_count: 3 }));
    assert_eq!(get_planes_arg(&[-1], 3), Err(PlaneError::OutOfRange { index: -1, plane_count: 3 }));
    assert_eq!(get_planes_arg(&[1], 1), Err(PlaneError::OutOfRange { index: 1, plane_count: 1 }));
}

#[test]
fn duplicate_index_is_refused() {
    assert_eq!(get_planes_arg(&[1, 1], 3), Err(PlaneError::Duplicate { index: 1 }));
    assert_eq!(get_planes_arg(&[0, 2, 0], 3), Err(PlaneError::Duplicate { index: 0 }));
}

#[test]
fn first_fault_is_reported() {
    assert_eq!(get_planes_arg(&[1, 1, 7], 3), Err(PlaneError::Duplicate { index: 1 }));
    assert_eq!(
        get_planes_arg(&[1, 7, 1], 3),
        Err(PlaneError::OutOfRange { index: 7, plane_count: 3 })
    );
}

#[test]
fn plane_error_messages() {
    assert_eq!(
        PlaneError::OutOfRange { index: 5, plane_count: 3 }.message(),
        "Plane index 5 is out of range [0, 3)."
    );
    assert_eq!(
        PlaneError::OutOfRange { index: -12, plane_count: 3 }.message(),
        "Plane index -12 is out of range [0, 3)."
    );
    assert_eq!(
        PlaneError::OutOfRange { index: i32::MIN, plane_count: 1 }.message(),
        "Plane index -2147483648 is out of range [0, 1)."
    );
    assert_eq!(
        PlaneError::Duplicate { index: 2 }.message(),
        "Plane 2 is specified more than once."
    );
}
