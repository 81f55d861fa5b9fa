use fromsoft_bindings::device_hooks::{clears_device_state, plan_device_hooks};
use fromsoft_bindings::input::{is_blocked, InputBlocker};
use fromsoft_bindings::input_flags::{InputFlags, ALL_INPUT_BITS};

fn blocks(b: &InputBlocker, f: InputFlags) -> bool {
    is_blocked(Some(b), f)
}

#[test]
fn flag_bits() {
    assert_eq!(InputFlags::game_pad().bits(), 0b001);
    assert_eq!(InputFlags::keyboard().bits(), 0b010);
    assert_eq!(InputFlags::mouse().bits(), 0b100);
    assert_eq!(InputFlags::empty().bits(), 0);
}

#[test]
fn complement_drops_unnamed_bits() {
    assert_eq!(InputFlags::keyboard().complement().bits(), 0b101);
    assert_eq!(InputFlags::from_bits_retain(0xF8).complement().bits(), 0b111);
    assert_eq!(InputFlags::from_bits_retain(ALL_INPUT_BITS).complement().bits(), 0);
}

#[test]
fn union_and_intersects() {
    let km = InputFlags::keyboard().union(InputFlags::mouse());
    assert_eq!(km.bits(), 0b110);
    assert!(km.intersects(InputFlags::mouse()));
    assert!(!km.intersects(InputFlags::game_pad()));
    let mut f = InputFlags::game_pad();
    f.insert(InputFlags::from_bits_retain(0x80));
    assert_eq!(f.bits(), 0x81);
}

#[test]
fn new_blocks_nothing() {
    let b = InputBlocker::new();
    assert!(!blocks(&b, InputFlags::from_bits_retain(ALL_INPUT_BITS)));
    assert!(!blocks(&b, InputFlags::from_bits_retain(0xFF)));
    let d = InputBlocker::default();
    assert!(!blocks(&d, InputFlags::from_bits_retain(0xFF)));
}

#[test]
fn block_adds_inputs() {
    let mut b = InputBlocker::new();
    b.block(InputFlags::keyboard());
    assert!(blocks(&b, InputFlags::keyboard()));
    assert!(!blocks(&b, InputFlags::mouse()));
    b.block(InputFlags::mouse());
    assert!(blocks(&b, InputFlags::keyboard()));
    assert!(blocks(&b, InputFlags::mouse()));
    assert!(!blocks(&b, InputFlags::game_pad()));
}

#[test]
fn block_only_replaces_inputs() {
    let mut b = InputBlocker::new();
    b.block(InputFlags::from_bits_retain(ALL_INPUT_BITS));
    b.block_only(InputFlags::game_pad());
    assert!(blocks(&b, InputFlags::game_pad()));
    assert!(!blocks(&b, InputFlags::keyboard().union(InputFlags::mouse())));
}

#[test]
fn unblock_releases_inputs_and_unnamed_bits() {
    let mut b = InputBlocker::new();
    b.block(InputFlags::from_bits_retain(0xFF));
    b.unblock(InputFlags::keyboard());
    assert!(!blocks(&b, InputFlags::keyboard()));
    assert!(blocks(&b, InputFlags::mouse()));
    assert!(blocks(&b, InputFlags::game_pad()));
    assert!(!blocks(&b, InputFlags::from_bits_retain(0xF8)));
}

#[test]
fn unblock_all_releases_everything() {
    let mut b = InputBlocker::new();
    b.block(InputFlags::from_bits_retain(0xFF));
    b.unblock(InputFlags::from_bits_retain(ALL_INPUT_BITS));
    assert!(!blocks(&b, InputFlags::from_bits_retain(0xFF)));
}

#[test]
fn unblock_undoes_block() {
    let mut b = InputBlocker::new();
    b.block(InputFlags::game_pad());
    b.block(InputFlags::mouse());
    b.unblock(InputFlags::mouse());
    assert!(blocks(&b, InputFlags::game_pad()));
    assert!(!blocks(&b, InputFlags::keyboard().union(InputFlags::mouse())));
}

#[test]
fn block_from_io_cases() {
    let mut b = InputBlocker::new();
    b.block_from_io(true, true);
    assert!(blocks(&b, InputFlags::game_pad()));
    assert!(blocks(&b, InputFlags::keyboard()));
    assert!(blocks(&b, InputFlags::mouse()));
    b.block_from_io(true, false);
    assert!(blocks(&b, InputFlags::mouse()));
    assert!(!blocks(&b, InputFlags::keyboard().union(InputFlags::game_pad())));
    b.block_from_io(false, true);
    assert!(blocks(&b, InputFlags::keyboard()));
    assert!(!blocks(&b, InputFlags::mouse().union(InputFlags::game_pad())));
    b.block_from_io(false, false);
    assert!(!blocks(&b, InputFlags::from_bits_retain(0xFF)));
}

#[test]
fn no_blocker_blocks_nothing() {
    assert!(!is_blocked(None, InputFlags::from_bits_retain(ALL_INPUT_BITS)));
}

#[test]
fn mark_hooks_installed_once() {
    let mut b = InputBlocker::new();
    assert!(!b.mark_hooks_installed());
    assert!(b.mark_hooks_installed());
}

#[test]
fn get_instance_creates_then_keeps() {
    let mut slot: Option<InputBlocker> = None;
    InputBlocker::get_instance(&mut slot).block(InputFlags::mouse());
    assert!(slot.is_some());
    let again = InputBlocker::get_instance(&mut slot);
    assert!(blocks(again, InputFlags::mouse()));
    assert!(!again.mark_hooks_installed());
}

#[test]
fn forward_instance_marks_taken_blocker() {
    let mut forwarded = InputBlocker::new();
    forwarded.block(InputFlags::keyboard());
    forwarded.forward_instance(true);
    assert!(blocks(&forwarded, InputFlags::keyboard()));
    assert!(forwarded.mark_hooks_installed());

    let mut refused = InputBlocker::new();
    refused.block(InputFlags::mouse());
    refused.forward_instance(false);
    assert!(blocks(&refused, InputFlags::mouse()));
    assert!(!refused.mark_hooks_installed());
}

#[test]
fn flag_set_operations() {
    let km = InputFlags::keyboard() | InputFlags::mouse();
    assert_eq!(km.bits(), 0b110);
    assert_eq!((km & InputFlags::mouse()).bits(), 0b100);
    assert_eq!((!km).bits(), 0b001);
    assert_eq!((!InputFlags::from_bits_retain(0xF0)).bits(), 0b111);
    assert_eq!(InputFlags::all().bits(), ALL_INPUT_BITS);
    assert!(InputFlags::all().is_all());
    assert!(!km.is_all());
    assert!(km.contains(InputFlags::mouse()));
    assert!(!km.contains(InputFlags::all()));
    assert!(InputFlags::empty().is_empty());
    assert!(!km.is_empty());
    assert_eq!(km.intersection(InputFlags::keyboard()).bits(), 0b010);
    assert_eq!(km.difference(InputFlags::keyboard()).bits(), 0b100);
    let mut f = InputFlags::all();
    f.remove(InputFlags::game_pad());
    assert_eq!(f.bits(), 0b110);
}

#[test]
fn shared_device_function_gets_one_hook() {
    let plan = plan_device_hooks(0x1000, 0x1000);
    assert_eq!(plan.keyboard.bits(), 0b110);
    assert!(plan.mouse.is_none());
}

#[test]
fn separate_device_functions_get_two_hooks() {
    let plan = plan_device_hooks(0x1000, 0x2000);
    assert_eq!(plan.keyboard.bits(), 0b010);
    assert_eq!(plan.mouse.unwrap().bits(), 0b100);
}

#[test]
fn device_state_cleared_only_on_success_while_blocked() {
    let mut b = InputBlocker::new();
    b.block(InputFlags::keyboard());
    assert!(clears_device_state(0, Some(&b), InputFlags::keyboard()));
    assert!(!clears_device_state(1, Some(&b), InputFlags::keyboard()));
    assert!(!clears_device_state(0, Some(&b), InputFlags::mouse()));
    assert!(!clears_device_state(0, None, InputFlags::keyboard()));
}

#[test]
fn blocking_twice_is_blocking_the_union() {
    let mut a = InputBlocker::new();
    a.block(InputFlags::mouse());
    a.block(InputFlags::game_pad());
    let mut b = InputBlocker::new();
    b.block(InputFlags::mouse().union(InputFlags::game_pad()));
    for bits in 0u8..=255 {
        let f = InputFlags::from_bits_retain(bits);
        assert_eq!(blocks(&a, f), blocks(&b, f));
    }
}
