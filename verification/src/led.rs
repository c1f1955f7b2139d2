use vstd::prelude::*;

verus! {

/// The byte an indicator output writes into its control file: ASCII '1' to
/// drive the line high, ASCII '0' to drive it low.
pub open spec fn led_byte(on: bool) -> u8 {
    if on {
        49u8
    } else {
        48u8
    }
}

/// The state of one on/off indicator output.
///
/// This is the decision half of the indicator: it remembers the current
/// value and says which byte must be written to the file-backed control
/// interface; the file write itself lives outside the library.
pub struct LedState {
    value: bool,
}

impl LedState {
    /// The current value of the indicator.
    pub closed spec fn value_spec(self) -> bool {
        self.value
    }

    /// A fresh indicator is off.
    pub fn new() -> (r: LedState)
        ensures
            !r.value_spec(),
    {
        LedState { value: false }
    }

    /// Sets the indicator and returns the byte to write to the control file.
    pub fn set(&mut self, on: bool) -> (b: u8)
        ensures
            final(self).value_spec() == on,
            b == led_byte(on),
    {
        self.value = on;
        if on {
            49
        } else {
            48
        }
    }

    /// Switches the indicator to the opposite of its current state and
    /// returns the byte to write.
    pub fn toggle(&mut self) -> (b: u8)
        ensures
            final(self).value_spec() == !old(self).value_spec(),
            b == led_byte(!old(self).value_spec()),
    {
        let next = !self.value;
        self.set(next)
    }

    /// Returns the current state of the indicator.
    pub fn read(&self) -> (r: bool)
        ensures
            r == self.value_spec(),
    {
        self.value
    }
}

} // verus!
