//! The radio configuration shared by the command handler and the radio.
use vstd::prelude::*;
use crate::protocol::{is_channel, MIN_CHANNEL, MAX_CHANNEL};

verus! {

/// The channel armed at start-up.
pub const DEFAULT_CHANNEL: u8 = 15;

/// Receive configuration of the radio.
#[derive(Clone, Copy, Debug, PartialEq, Eq, Structural)]
pub struct RadioConfig {
    pub channel: u8,
    pub promiscuous: bool,
    pub rx_when_idle: bool,
}

/// The promiscuous, always-listening configuration on channel `c`.
pub open spec fn capture_config(c: u8) -> RadioConfig {
    RadioConfig { channel: c, promiscuous: true, rx_when_idle: true }
}

impl RadioConfig {
    /// The channel is one that the radio accepts.
    pub open spec fn wf(&self) -> bool {
        is_channel(self.channel)
    }

    /// The configuration a command for channel `c` installs, or `None` when
    /// `c` is no channel.
    pub fn for_channel(c: u8) -> (r: Option<RadioConfig>)
        ensures
            is_channel(c) ==> r == Some(capture_config(c)),
            !is_channel(c) ==> r is None,
    {
        if MIN_CHANNEL <= c && c <= MAX_CHANNEL {
            Some(RadioConfig { channel: c, promiscuous: true, rx_when_idle: true })
        } else {
            None
        }
    }

    /// The configuration armed at start-up.
    pub fn initial() -> (r: RadioConfig)
        ensures
            r == capture_config(DEFAULT_CHANNEL),
            r.wf(),
    {
        RadioConfig { channel: DEFAULT_CHANNEL, promiscuous: true, rx_when_idle: true }
    }
}

} // verus!
