//! Shared scoreboard-location state: which channel and message hold the live
//! leaderboard. The surrounding program serializes access to one value of
//! this type; every transition here updates the pair atomically, so a reader
//! can never observe a half-updated location.
use vstd::prelude::*;

verus! {

/// Where the live leaderboard message lives. Both fields absent means the
/// scoreboard is disarmed and refresh cycles must do nothing.
#[derive(Clone, Copy, PartialEq, Eq, Structural, Debug)]
pub struct ScoreboardLocation {
    pub channel: Option<u64>,
    pub message: Option<u64>,
}

/// The scoreboard is armed exactly when both the channel and the message are
/// recorded.
pub open spec fn spec_armed(loc: ScoreboardLocation) -> bool {
    loc.channel is Some && loc.message is Some
}

impl ScoreboardLocation {
    /// A fresh, disarmed location.
    pub fn new() -> (r: Self)
        ensures
            r.channel is None,
            r.message is None,
            !spec_armed(r),
    {
        ScoreboardLocation { channel: None, message: None }
    }

    /// Resume from durably stored values, e.g. after a restart. The location
    /// is armed only if both values were stored.
    pub fn from_saved(channel: Option<u64>, message: Option<u64>) -> (r: Self)
        ensures
            r.channel == channel,
            r.message == message,
    {
        ScoreboardLocation { channel, message }
    }

    /// Whether the scoreboard is armed.
    pub fn is_armed(&self) -> (r: bool)
        ensures
            r == spec_armed(*self),
    {
        self.channel.is_some() && self.message.is_some()
    }

    /// Read the pair as one value.
    pub fn read(&self) -> (r: (Option<u64>, Option<u64>))
        ensures
            r.0 == self.channel,
            r.1 == self.message,
    {
        (self.channel, self.message)
    }

    /// Arm the scoreboard: record the channel and the freshly created message
    /// as one atomic transition. Afterwards the location is armed and holds
    /// exactly the given pair, whatever it held before; re-arming therefore
    /// always leaves the most recent invocation's pair in place.
    pub fn arm(&mut self, channel: u64, message: u64)
        ensures
            final(self).channel == Some(channel),
            final(self).message == Some(message),
            spec_armed(*final(self)),
    {
        self.channel = Some(channel);
        self.message = Some(message);
    }
}

} // verus!
