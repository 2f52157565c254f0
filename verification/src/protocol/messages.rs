//! Client/server message types that carry only integers and strings.
use vstd::prelude::*;

verus! {

/// Protocol version; raised on every breaking change.
pub const PROTOCOL_VERSION: u16 = 1;

/// Largest payload a framed message may carry (64 KiB).
pub const MAX_MESSAGE_SIZE: usize = 65536;

/// Messages sent from a client to the server.
#[derive(Debug, Clone)]
pub enum C2S {
    /// First message after connecting.
    Hello { build: u32, protocol: u16 },
    /// Request to join the running game.
    Join { name: String },
    /// Player input, sent every frame.
    Input(InputCmd),
    /// Acknowledges the last server tick that was received.
    Ack { last_server_tick: u32 },
    /// Round-trip time probe.
    Ping { timestamp_ms: u64 },
}

/// One frame of player input.
#[derive(Debug, Clone, Copy, PartialEq, Eq)]
pub struct InputCmd {
    /// Sequence number used for de-duplication.
    pub client_seq: u32,
    /// Client tick at which the input was captured.
    pub client_tick: u32,
    /// Horizontal movement, -100..100.
    pub move_x: i8,
    /// Vertical movement, -100..100.
    pub move_y: i8,
    /// Horizontal aim, -100..100.
    pub aim_x: i8,
    /// Vertical aim, -100..100.
    pub aim_y: i8,
    /// Bit flags of the pressed buttons.
    pub buttons: u16,
}

impl Default for InputCmd {
    fn default() -> (r: Self)
        ensures
            r.client_seq == 0,
            r.client_tick == 0,
            r.move_x == 0,
            r.move_y == 0,
            r.aim_x == 0,
            r.aim_y == 0,
            r.buttons == 0,
    {
        InputCmd { client_seq: 0, client_tick: 0, move_x: 0, move_y: 0, aim_x: 0, aim_y: 0, buttons: 0 }
    }
}

/// The button mask after setting (`pressed`) or clearing `button` in `buttons`.
pub open spec fn spec_set_button(buttons: u16, button: u16, pressed: bool) -> u16 {
    if pressed {
        buttons | button
    } else {
        buttons & !button
    }
}

/// Whether any bit of `button` is set in `buttons`.
pub open spec fn spec_is_pressed(buttons: u16, button: u16) -> bool {
    (buttons & button) != 0
}

impl InputCmd {
    /// Pushback button (space).
    pub const BTN_PUSHBACK: u16 = 1;
    /// Interact button (E).
    pub const BTN_INTERACT: u16 = 2;
    /// Skill 1 (Q).
    pub const BTN_SKILL1: u16 = 4;
    /// Skill 2 (R).
    pub const BTN_SKILL2: u16 = 8;
    /// Skill 3 (F).
    pub const BTN_SKILL3: u16 = 16;
    /// Skill 4 (X).
    pub const BTN_SKILL4: u16 = 32;

    /// Whether `button` is pressed in this command.
    pub fn is_pressed(&self, button: u16) -> (r: bool)
        ensures
            r == spec_is_pressed(self.buttons, button),
    {
        (self.buttons & button) != 0
    }

    /// Sets or clears `button`, leaving every other field unchanged.
    pub fn set_button(&mut self, button: u16, pressed: bool)
        ensures
            final(self).buttons == spec_set_button(old(self).buttons, button, pressed),
            final(self).client_seq == old(self).client_seq,
            final(self).client_tick == old(self).client_tick,
            final(self).move_x == old(self).move_x,
            final(self).move_y == old(self).move_y,
            final(self).aim_x == old(self).aim_x,
            final(self).aim_y == old(self).aim_y,
    {
        if pressed {
            self.buttons = self.buttons | button;
        } else {
            self.buttons = self.buttons & !button;
        }
    }
}

/// Setting a non-empty button makes it read back as `pressed`, and a button
/// that shares no bit with it reads back as it did before.
pub proof fn lemma_set_button_then_is_pressed(buttons: u16, button: u16, other: u16, pressed: bool)
    requires
        button != 0,
    ensures
        spec_is_pressed(spec_set_button(buttons, button, pressed), button) == pressed,
        (other & button) == 0 ==> spec_is_pressed(spec_set_button(buttons, button, pressed), other)
            == spec_is_pressed(buttons, other),
{
    assert(button != 0 ==> ((buttons | button) & button) != 0) by (bit_vector);
    assert(((buttons & !button) & button) == 0) by (bit_vector);
    assert((other & button) == 0 ==> ((buttons | button) & other) == (buttons & other))
        by (bit_vector);
    assert((other & button) == 0 ==> ((buttons & !button) & other) == (buttons & other))
        by (bit_vector);
}

/// An inventory slot change.
#[derive(Debug, Clone, Copy, PartialEq, Eq)]
pub struct ItemUpdate {
    pub item_id: u32,
    pub stack_count: u32,
}

} // verus!
