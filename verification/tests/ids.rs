use managed_rooms::ids::{distinct_ids, first_positions, has_id};
use managed_rooms::room_id::is_room_id;

#[test]
fn distinct_ids_ascend_and_occur_once() {
    assert_eq!(distinct_ids(&vec![5, -1, 3, 5, 3, 3, 0]), vec![-1, 0, 3, 5]);
    assert_eq!(distinct_ids(&vec![]), Vec::<i32>::new());
    assert_eq!(distinct_ids(&vec![i32::MAX, i32::MIN]), vec![i32::MIN, i32::MAX]);
}

#[test]
fn distinct_ids_do_not_depend_on_order_or_repetition() {
    assert_eq!(distinct_ids(&vec![2, 1, 2, 3]), distinct_ids(&vec![3, 1, 2]));
}

#[test]
fn first_positions_point_at_first_occurrences() {
    assert_eq!(first_positions(&vec![7, 3, 7, 3, 9]), vec![1, 0, 4]);
}

#[test]
fn has_id_finds_members_only() {
    assert!(has_id(&vec![1, 2], 2));
    assert!(!has_id(&vec![1, 2], 3));
}

#[test]
fn room_ids_are_short_and_plain() {
    assert!(is_room_id("Room-1_x"));
    assert!(is_room_id("12345678901234567890"));
    assert!(!is_room_id("123456789012345678901"));
    assert!(!is_room_id(""));
    assert!(!is_room_id("room 1"));
    assert!(!is_room_id("房间"));
}
