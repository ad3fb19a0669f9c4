//! Physical gamepad input driver.
use vstd::prelude::*;
use crate::button::Button;
use crate::input::{InputSource, JoypadState, bit_of};

verus! {

/// Gamepad physical controller input driver.
#[derive(Debug, Clone)]
pub struct GamepadInput {
    connected: bool,
    active_name: Option<String>,
    state: JoypadState,
}

/// Mathematical model of a gamepad driver.
pub ghost struct GamepadView {
    pub connected: bool,
    pub name: Option<Seq<char>>,
    pub bits: u16,
}

impl View for GamepadInput {
    type V = GamepadView;

    closed spec fn view(&self) -> GamepadView {
        GamepadView {
            connected: self.connected,
            name: match self.active_name {
                Some(s) => Some(s@),
                None => None,
            },
            bits: self.state.0,
        }
    }
}

impl Default for GamepadInput {
    fn default() -> (g: Self)
        ensures
            g@ == (GamepadView { connected: false, name: None, bits: 0 }),
    {
        Self::new()
    }
}

impl GamepadInput {
    /// A disconnected gamepad with nothing pressed.
    pub fn new() -> (g: Self)
        ensures
            g@ == (GamepadView { connected: false, name: None, bits: 0 }),
    {
        GamepadInput { connected: false, active_name: None, state: JoypadState(0) }
    }

    /// Sets or clears a button.
    pub fn set_button(&mut self, button: Button, pressed: bool)
        ensures
            final(self)@ == (GamepadView {
                bits: if pressed { old(self)@.bits | bit_of(button) } else { old(self)@.bits & !bit_of(button) },
                ..old(self)@
            }),
    {
        self.state.set_pressed(button, pressed);
    }

    /// A gamepad is connected.
    pub fn is_connected(&self) -> (b: bool)
        ensures
            b == self@.connected,
    {
        self.connected
    }

    /// Records the connection state and device name; disconnecting releases every button.
    pub fn set_connected(&mut self, connected: bool, name: Option<String>)
        ensures
            final(self)@.connected == connected,
            final(self)@.name == match name {
                Some(s) => Some(s@),
                None => None::<Seq<char>>,
            },
            final(self)@.bits == if connected { old(self)@.bits } else { 0 },
    {
        self.connected = connected;
        self.active_name = name;
        if !connected {
            self.state = JoypadState(0);
        }
    }

    /// The connected device's name, if known.
    pub fn device_name(&self) -> (r: Option<&str>)
        ensures
            match self@.name {
                Some(n) => r is Some && r.unwrap()@ == n,
                None => r is None,
            },
    {
        match &self.active_name {
            Some(s) => Some(s.as_str()),
            None => None,
        }
    }

    /// The pressed buttons.
    pub fn state(&self) -> (s: JoypadState)
        ensures
            s.0 == self@.bits,
    {
        self.state
    }
}

impl InputSource for GamepadInput {
    fn name(&self) -> (r: &'static str)
        ensures
            r@ == "Gamepad"@,
    {
        "Gamepad"
    }

    fn poll(&mut self) -> (s: JoypadState)
        ensures
            s.0 == old(self)@.bits,
            final(self)@ == old(self)@,
    {
        self.state
    }
}

} // verus!
