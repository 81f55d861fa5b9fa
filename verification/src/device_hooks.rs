use vstd::prelude::*;

use crate::input::{is_blocked, InputBlocker};
use crate::input_flags::InputFlags;

verus! {

/// Which hooks to place on the `GetDeviceState` functions of the keyboard and
/// the mouse, and which inputs each hook withholds.
#[derive(Clone, Copy, Debug)]
pub struct DeviceHookPlan {
    /// The inputs that the hook on the keyboard's function withholds.
    pub keyboard: InputFlags,
    /// The inputs that a separate hook on the mouse's function withholds, if
    /// the mouse needs a hook of its own.
    pub mouse: Option<InputFlags>,
}

/// The inputs that the keyboard's hook withholds: the mouse's too when both
/// devices share one `GetDeviceState` function.
pub open spec fn keyboard_hook_bits(keyboard_fn: usize, mouse_fn: usize) -> u8 {
    if keyboard_fn == mouse_fn {
        0b110
    } else {
        0b010
    }
}

/// The inputs that a separate hook on the mouse's function withholds, if the
/// mouse has a function of its own.
pub open spec fn mouse_hook_bits(keyboard_fn: usize, mouse_fn: usize) -> Option<u8> {
    if keyboard_fn == mouse_fn {
        None
    } else {
        Some(0b100)
    }
}

/// Plans the hooks for the keyboard's and the mouse's `GetDeviceState`
/// functions, given by their addresses. When both devices share one
/// function, one hook withholds both kinds of input; otherwise each device
/// gets a hook for its own kind.
pub fn plan_device_hooks(keyboard_fn: usize, mouse_fn: usize) -> (plan: DeviceHookPlan)
    ensures
        plan.keyboard@ == keyboard_hook_bits(keyboard_fn, mouse_fn),
        plan.mouse is Some == mouse_hook_bits(keyboard_fn, mouse_fn) is Some,
        plan.mouse matches Some(m) ==> Some(m@) == mouse_hook_bits(keyboard_fn, mouse_fn),
{
    if keyboard_fn == mouse_fn {
        let both = InputFlags::keyboard().union(InputFlags::mouse());
        proof {
            assert(0b010u8 | 0b100u8 == 0b110u8) by (bit_vector);
        }
        DeviceHookPlan { keyboard: both, mouse: None }
    } else {
        DeviceHookPlan { keyboard: InputFlags::keyboard(), mouse: Some(InputFlags::mouse()) }
    }
}

/// Whether a hooked `GetDeviceState` call must hand the game a zeroed state:
/// exactly when the call succeeded (`result` is 0) and the process's blocker
/// blocks one of the inputs that the hook stands for.
pub fn clears_device_state(result: usize, blocker: Option<&InputBlocker>, flags: InputFlags) -> (r:
    bool)
    ensures
        r == (result == 0 && (blocker matches Some(b) && b.blocked() & flags@ != 0)),
{
    result == 0 && is_blocked(blocker, flags)
}

/// Every device's input is withheld by exactly one hook, and the gamepad's
/// by none: the keyboard's by the keyboard hook, the mouse's by the keyboard
/// hook when the two share a function and by the mouse hook otherwise.
pub proof fn lemma_each_device_hooked_once(keyboard_fn: usize, mouse_fn: usize)
    ensures
        keyboard_hook_bits(keyboard_fn, mouse_fn) & 0b010 != 0,
        (keyboard_hook_bits(keyboard_fn, mouse_fn) & 0b100 != 0) == (keyboard_fn == mouse_fn),
        (mouse_hook_bits(keyboard_fn, mouse_fn) matches Some(m) && m & 0b100 != 0) == (keyboard_fn
            != mouse_fn),
        mouse_hook_bits(keyboard_fn, mouse_fn) matches Some(m) ==> m & 0b010 == 0 && m & 0b001 == 0,
        keyboard_hook_bits(keyboard_fn, mouse_fn) & 0b001 == 0,
{
    assert(0b110u8 & 0b010u8 != 0 && 0b110u8 & 0b100u8 != 0 && 0b110u8 & 0b001u8 == 0)
        by (bit_vector);
    assert(0b010u8 & 0b010u8 != 0 && 0b010u8 & 0b100u8 == 0 && 0b010u8 & 0b001u8 == 0)
        by (bit_vector);
    assert(0b100u8 & 0b100u8 != 0 && 0b100u8 & 0b010u8 == 0 && 0b100u8 & 0b001u8 == 0)
        by (bit_vector);
}

} // verus!
