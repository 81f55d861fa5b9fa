use vstd::prelude::*;

use crate::input_flags::{InputFlags, ALL_INPUT_BITS};

verus! {

/// The blocked inputs after `inputs` are added to `flags`.
pub open spec fn blocked_after_block(flags: u8, inputs: u8) -> u8 {
    flags | inputs
}

/// The blocked inputs after `inputs` are released from `flags`: the named
/// kinds of `inputs` and every unnamed bit are cleared.
pub open spec fn blocked_after_unblock(flags: u8, inputs: u8) -> u8 {
    flags & ((!inputs) & ALL_INPUT_BITS)
}

/// The inputs to block while the overlay wants the mouse and/or the keyboard:
/// the mouse and the keyboard each when wanted, the gamepad when both are.
pub open spec fn inputs_for_capture(want_mouse: bool, want_keyboard: bool) -> u8 {
    if want_mouse && want_keyboard {
        0b111
    } else if want_mouse {
        0b100
    } else if want_keyboard {
        0b010
    } else {
        0
    }
}

/// Keeps track of which game inputs a debug overlay currently withholds from
/// the game, and of whether the input hooks have been installed.
#[derive(Clone, Copy, Debug)]
pub struct InputBlocker {
    flags: InputFlags,
    hooks_installed: bool,
}

impl InputBlocker {
    /// The bits of the inputs that are blocked.
    pub closed spec fn blocked(&self) -> u8 {
        self.flags@
    }

    /// Whether the input hooks are, or are being, installed.
    pub closed spec fn hooks_installed(&self) -> bool {
        self.hooks_installed
    }

    /// A blocker that blocks nothing and has no hooks installed.
    pub fn new() -> (r: InputBlocker)
        ensures
            r.blocked() == 0,
            !r.hooks_installed(),
    {
        InputBlocker { flags: InputFlags::empty(), hooks_installed: false }
    }

    /// The blocker of a process: the one in `slot`, which is created there
    /// the first time it is asked for.
    pub fn get_instance(slot: &mut Option<InputBlocker>) -> (r: &mut InputBlocker)
        ensures
            *old(slot) is Some ==> *r == old(slot)->0,
            *old(slot) is None ==> r.blocked() == 0 && !r.hooks_installed(),
            *final(slot) == Some(*final(r)),
    {
        slot.get_or_insert(InputBlocker::new())
    }

    /// Receives the blocker of the module from before a reload. `taken` says
    /// whether the process took this blocker as its own, which it does when it
    /// has none yet; a taken blocker's hooks are installed already, by the
    /// module it comes from, and it is marked so. Nothing else changes.
    pub fn forward_instance(&mut self, taken: bool)
        ensures
            final(self).blocked() == old(self).blocked(),
            final(self).hooks_installed() == (old(self).hooks_installed() || taken),
    {
        if taken {
            self.hooks_installed = true;
        }
    }

    /// Marks the hooks as installed and says whether they already were, in
    /// which case they must not be installed a second time.
    pub fn mark_hooks_installed(&mut self) -> (already_installed: bool)
        ensures
            already_installed == old(self).hooks_installed(),
            final(self).hooks_installed(),
            final(self).blocked() == old(self).blocked(),
    {
        let already_installed = self.hooks_installed;
        self.hooks_installed = true;
        already_installed
    }

    /// Blocks `inputs` in addition to what is blocked already.
    pub fn block(&mut self, inputs: InputFlags)
        ensures
            final(self).blocked() == blocked_after_block(old(self).blocked(), inputs@),
            final(self).hooks_installed() == old(self).hooks_installed(),
    {
        self.flags.insert(inputs);
    }

    /// Blocks exactly `inputs`.
    pub fn block_only(&mut self, inputs: InputFlags)
        ensures
            final(self).blocked() == inputs@,
            final(self).hooks_installed() == old(self).hooks_installed(),
    {
        self.flags = inputs;
    }

    /// Blocks exactly the inputs that the overlay wants for itself: the mouse
    /// and the keyboard each when the overlay captures it, and the gamepad
    /// when it captures both.
    pub fn block_from_io(&mut self, want_capture_mouse: bool, want_capture_keyboard: bool)
        ensures
            final(self).blocked() == inputs_for_capture(want_capture_mouse, want_capture_keyboard),
            final(self).hooks_installed() == old(self).hooks_installed(),
    {
        let mut flag = InputFlags::empty();
        if want_capture_mouse {
            flag.insert(InputFlags::mouse());
        }
        if want_capture_keyboard {
            flag.insert(InputFlags::keyboard());
        }
        if want_capture_mouse && want_capture_keyboard {
            flag.insert(InputFlags::game_pad());
        }
        proof {
            assert(0u8 | 0b100u8 == 0b100u8) by (bit_vector);
            assert(0u8 | 0b010u8 == 0b010u8) by (bit_vector);
            assert(0b100u8 | 0b010u8 == 0b110u8) by (bit_vector);
            assert(0b110u8 | 0b001u8 == 0b111u8) by (bit_vector);
        }
        self.block_only(flag);
    }

    /// Releases `inputs`; bits that name no input kind are released too.
    pub fn unblock(&mut self, inputs: InputFlags)
        ensures
            final(self).blocked() == blocked_after_unblock(old(self).blocked(), inputs@),
            final(self).hooks_installed() == old(self).hooks_installed(),
    {
        let keep = inputs.complement();
        self.flags = InputFlags::from_bits_retain(self.flags.bits() & keep.bits());
    }
}

impl Default for InputBlocker {
    fn default() -> (r: InputBlocker)
        ensures
            r.blocked() == 0,
            !r.hooks_installed(),
    {
        InputBlocker::new()
    }
}

/// Whether the process has a blocker and it blocks any of `flags`.
pub fn is_blocked(blocker: Option<&InputBlocker>, flags: InputFlags) -> (r: bool)
    ensures
        r == (blocker matches Some(b) && b.blocked() & flags@ != 0),
{
    match blocker {
        Some(b) => b.flags.intersects(flags),
        None => false,
    }
}

/// Blocking inputs never releases anything: every input blocked before is
/// still blocked, and every bit of `inputs` is blocked afterwards.
pub proof fn lemma_block_keeps_and_adds(flags: u8, inputs: u8)
    ensures
        blocked_after_block(flags, inputs) & flags == flags,
        blocked_after_block(flags, inputs) & inputs == inputs,
{
    assert((flags | inputs) & flags == flags) by (bit_vector);
    assert((flags | inputs) & inputs == inputs) by (bit_vector);
}

/// Blocking twice is blocking the union once, in either order.
pub proof fn lemma_block_twice(flags: u8, a: u8, b: u8)
    ensures
        blocked_after_block(blocked_after_block(flags, a), b) == blocked_after_block(flags, a | b),
        blocked_after_block(blocked_after_block(flags, a), b) == blocked_after_block(
            blocked_after_block(flags, b),
            a,
        ),
{
    assert((flags | a) | b == flags | (a | b)) by (bit_vector);
    assert((flags | a) | b == (flags | b) | a) by (bit_vector);
}

/// After `inputs` are released none of them is blocked, the other named
/// inputs stay as they were, and no unnamed bit is left.
pub proof fn lemma_unblock_releases(flags: u8, inputs: u8)
    ensures
        blocked_after_unblock(flags, inputs) & inputs == 0,
        blocked_after_unblock(flags, inputs) & ((!inputs) & ALL_INPUT_BITS) == flags & ((!inputs)
            & ALL_INPUT_BITS),
        blocked_after_unblock(flags, inputs) & !ALL_INPUT_BITS == 0,
{
    assert((flags & ((!inputs) & 0b111u8)) & inputs == 0) by (bit_vector);
    assert((flags & ((!inputs) & 0b111u8)) & ((!inputs) & 0b111u8) == flags & ((!inputs)
        & 0b111u8)) by (bit_vector);
    assert((flags & ((!inputs) & 0b111u8)) & !0b111u8 == 0) by (bit_vector);
}

/// Releasing every named input leaves nothing blocked.
pub proof fn lemma_unblock_all(flags: u8)
    ensures
        blocked_after_unblock(flags, ALL_INPUT_BITS) == 0,
{
    assert(flags & ((!0b111u8) & 0b111u8) == 0) by (bit_vector);
}

/// Releasing what was just blocked restores the blocker, when the inputs
/// were not blocked before and only named inputs were.
pub proof fn lemma_unblock_undoes_block(flags: u8, inputs: u8)
    requires
        flags & inputs == 0,
        flags & !ALL_INPUT_BITS == 0,
    ensures
        blocked_after_unblock(blocked_after_block(flags, inputs), inputs) == flags,
{
    assert((flags & inputs == 0 && flags & !0b111u8 == 0) ==> (flags | inputs) & ((!inputs)
        & 0b111u8) == flags) by (bit_vector);
}

/// Blocking for the overlay asks for the gamepad only together with both the
/// mouse and the keyboard, and for the mouse (the keyboard) exactly when the
/// overlay wants it.
pub proof fn lemma_capture_inputs(want_mouse: bool, want_keyboard: bool)
    ensures
        (inputs_for_capture(want_mouse, want_keyboard) & 0b100 != 0) == want_mouse,
        (inputs_for_capture(want_mouse, want_keyboard) & 0b010 != 0) == want_keyboard,
        (inputs_for_capture(want_mouse, want_keyboard) & 0b001 != 0) == (want_mouse
            && want_keyboard),
        inputs_for_capture(want_mouse, want_keyboard) & !ALL_INPUT_BITS == 0,
{
    assert(0b111u8 & 0b100u8 != 0 && 0b111u8 & 0b010u8 != 0 && 0b111u8 & 0b001u8 != 0
        && 0b111u8 & !0b111u8 == 0) by (bit_vector);
    assert(0b100u8 & 0b100u8 != 0 && 0b100u8 & 0b010u8 == 0 && 0b100u8 & 0b001u8 == 0
        && 0b100u8 & !0b111u8 == 0) by (bit_vector);
    assert(0b010u8 & 0b100u8 == 0 && 0b010u8 & 0b010u8 != 0 && 0b010u8 & 0b001u8 == 0
        && 0b010u8 & !0b111u8 == 0) by (bit_vector);
    assert(0u8 & 0b100u8 == 0 && 0u8 & 0b010u8 == 0 && 0u8 & 0b001u8 == 0 && 0u8 & !0b111u8
        == 0) by (bit_vector);
}

} // verus!
