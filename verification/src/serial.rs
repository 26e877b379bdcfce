//! Character output.

use vstd::prelude::*;

verus! {

/// A device that characters are put to and taken from.
pub trait SerialDevice {
    fn putc(&self, c: u8) -> Result<(), ()>;

    fn getc(&self) -> Result<Option<u8>, ()>;
}

/// The text with a carriage return in front of each line feed.
pub open spec fn with_carriage_returns(text: Seq<u8>) -> Seq<u8>
    decreases text.len(),
{
    if text.len() == 0 {
        Seq::empty()
    } else if text.last() == 0x0A {
        with_carriage_returns(text.drop_last()).push(0x0D).push(0x0A)
    } else {
        with_carriage_returns(text.drop_last()).push(text.last())
    }
}

/// The serial port that messages go to, once there is one.
pub struct Serial {
    pub connected: bool,
}

impl Serial {
    pub fn new(connected: bool) -> (serial: Self)
        ensures
            serial.connected == connected,
    {
        Self { connected }
    }

    /// The bytes that the device has to put out for `text`.
    pub fn write_str(&self, text: &[u8]) -> (output: Result<Vec<u8>, ()>)
        ensures
            match output {
                Ok(bytes) => self.connected && bytes@ == with_carriage_returns(text@),
                Err(_) => !self.connected,
            },
    {
        if !self.connected {
            return Err(());
        }
        let mut bytes: Vec<u8> = Vec::new();
        let mut i: usize = 0;
        while i < text.len()
            invariant
                i <= text.len(),
                bytes@ == with_carriage_returns(text@.take(i as int)),
            decreases text.len() - i,
        {
            assert(text@.take(i as int + 1).drop_last() =~= text@.take(i as int));
            if text[i] == 0x0A {
                bytes.push(0x0D);
            }
            bytes.push(text[i]);
            i = i + 1;
        }
        assert(text@.take(i as int) =~= text@);
        Ok(bytes)
    }
}

} // verus!
