use attractor_core::control::{
    SLOT_CANCEL, SLOT_COUNT, SLOT_MAX_DENSITY, SLOT_PROGRESS, SLOT_RESERVED,
};
use attractor_core::ControlBlock;

#[test]
fn slot_layout_is_fixed() {
    assert_eq!(SLOT_MAX_DENSITY, 0);
    assert_eq!(SLOT_CANCEL, 1);
    assert_eq!(SLOT_RESERVED, 2);
    assert_eq!(SLOT_PROGRESS, 3);
    assert_eq!(SLOT_COUNT, 4);
}

#[test]
fn new_block_is_blank() {
    let block = ControlBlock::new();
    assert_eq!(block.max_density, 0);
    assert!(!block.cancel_requested);
    assert_eq!(block.reserved, 0);
    assert_eq!(block.progress_percent, 0);
}

#[test]
fn block_is_read_by_layout() {
    let slots: Vec<u32> = vec![41, 0, 7, 55];
    let block = ControlBlock::from_slots(&slots).unwrap();
    assert_eq!(
        block,
        ControlBlock { max_density: 41, cancel_requested: false, reserved: 7, progress_percent: 55 }
    );
}

#[test]
fn any_non_zero_cancel_slot_is_a_request() {
    let one: Vec<u32> = vec![0, 1, 0, 0];
    assert!(ControlBlock::from_slots(&one).unwrap().cancel_requested);
    let many: Vec<u32> = vec![0, 4_000_000_000, 0, 0];
    assert!(ControlBlock::from_slots(&many).unwrap().cancel_requested);
}

#[test]
fn short_slots_give_no_block() {
    let three: Vec<u32> = vec![1, 2, 3];
    assert_eq!(ControlBlock::from_slots(&three), None);
    let none: Vec<u32> = Vec::new();
    assert_eq!(ControlBlock::from_slots(&none), None);
}

#[test]
fn extra_slots_are_ignored() {
    let six: Vec<u32> = vec![1, 0, 3, 4, 5, 6];
    let block = ControlBlock::from_slots(&six).unwrap();
    assert_eq!(
        block,
        ControlBlock { max_density: 1, cancel_requested: false, reserved: 3, progress_percent: 4 }
    );
}

#[test]
fn observe_cancel_takes_only_the_request() {
    let mut block =
        ControlBlock { max_density: 9, cancel_requested: false, reserved: 2, progress_percent: 40 };
    let slots: Vec<u32> = vec![100, 1, 200, 300];
    assert!(block.observe_cancel(&slots));
    assert_eq!(
        block,
        ControlBlock { max_density: 9, cancel_requested: true, reserved: 2, progress_percent: 40 }
    );
    let cleared: Vec<u32> = vec![100, 0, 200, 300];
    assert!(block.observe_cancel(&cleared));
    assert!(!block.cancel_requested);
}

#[test]
fn observe_cancel_on_short_slots_changes_nothing() {
    let mut block =
        ControlBlock { max_density: 9, cancel_requested: false, reserved: 2, progress_percent: 40 };
    let slots: Vec<u32> = vec![0, 1];
    assert!(!block.observe_cancel(&slots));
    assert!(!block.cancel_requested);
}

#[test]
fn publish_writes_only_the_renderer_slots() {
    let block =
        ControlBlock { max_density: 77, cancel_requested: true, reserved: 5, progress_percent: 50 };
    let mut slots: Vec<u32> = vec![1, 0, 33, 4, 99];
    assert!(block.publish(&mut slots));
    assert_eq!(slots, vec![77, 0, 33, 50, 99]);
}

#[test]
fn publish_on_short_slots_writes_nothing() {
    let block =
        ControlBlock { max_density: 77, cancel_requested: false, reserved: 5, progress_percent: 50 };
    let mut slots: Vec<u32> = vec![1, 2, 3];
    assert!(!block.publish(&mut slots));
    assert_eq!(slots, vec![1, 2, 3]);
}

#[test]
fn published_fields_are_read_back() {
    let block =
        ControlBlock { max_density: 12, cancel_requested: false, reserved: 0, progress_percent: 75 };
    let mut slots: Vec<u32> = vec![0, 1, 8, 0];
    assert!(block.publish(&mut slots));
    let back = ControlBlock::from_slots(&slots).unwrap();
    assert_eq!(
        back,
        ControlBlock { max_density: 12, cancel_requested: true, reserved: 8, progress_percent: 75 }
    );
}
