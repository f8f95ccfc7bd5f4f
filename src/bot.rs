//! The host's own connection to the upstream bot's event stream, shown in the UI as
//! connected or connecting.
use vstd::prelude::*;
use crate::api::BotStatusResponse;
use crate::config::BotConfig;

verus! {

/// Whether the host is to connect, is connected, and is trying to.
pub struct BotConnection {
    pub should_connect: bool,
    pub is_connected: bool,
    pub is_connecting: bool,
}

/// How one connection attempt ended.
#[derive(Clone, Copy, Debug, PartialEq, Eq, Structural)]
pub enum AttemptEnd {
    /// The upstream answered with success; its stream has since ended.
    StreamEnded,
    /// The upstream answered with an error status.
    Refused,
    /// The request did not reach the upstream.
    Unreachable,
}

/// What follows an attempt.
pub struct AfterAttempt {
    /// Status to publish, if any.
    pub status: Option<BotStatusResponse>,
    /// Value to persist as `auto_connect`, if any.
    pub persist_auto_connect: Option<bool>,
    /// Whether to wait and try again.
    pub retry: bool,
}

pub open spec fn status_pair(s: BotStatusResponse) -> (bool, bool) {
    (s.connected, s.connecting)
}

/// Whether saved settings ask to connect at start-up.
pub fn should_auto_connect(config: &BotConfig) -> (r: bool)
    ensures
        r == (config.auto_connect && config.host@.len() > 0),
{
    config.auto_connect && config.host.unicode_len() > 0
}

impl BotConnection {
    pub fn new() -> (r: Self)
        ensures
            !r.should_connect && !r.is_connected && !r.is_connecting,
    {
        BotConnection { should_connect: false, is_connected: false, is_connecting: false }
    }

    /// A connection is wanted: the host is connecting.
    pub fn begin_connect(&mut self) -> (r: BotStatusResponse)
        ensures
            final(self).should_connect && final(self).is_connecting,
            final(self).is_connected == old(self).is_connected,
            status_pair(r) == (false, true),
    {
        self.should_connect = true;
        self.is_connecting = true;
        BotStatusResponse { connected: false, connecting: true }
    }

    /// The upstream accepted the stream: connected, and connecting from now on at start-up.
    pub fn on_connected(&mut self) -> (r: (BotStatusResponse, bool))
        ensures
            final(self).is_connected && !final(self).is_connecting,
            final(self).should_connect == old(self).should_connect,
            status_pair(r.0) == (true, false),
            r.1,
    {
        self.is_connected = true;
        self.is_connecting = false;
        (BotStatusResponse { connected: true, connecting: false }, true)
    }

    /// An attempt has ended. If the connection is no longer wanted, the host stops trying,
    /// publishes that it is idle and no longer connects at start-up; otherwise it retries,
    /// publishing that it is connecting unless the upstream was unreachable.
    pub fn after_attempt(&mut self, end: AttemptEnd) -> (r: AfterAttempt)
        ensures
            !final(self).is_connected,
            final(self).should_connect == old(self).should_connect,
            !old(self).should_connect ==> {
                &&& !r.retry
                &&& !final(self).is_connecting
                &&& r.status.is_some() && status_pair(r.status.unwrap()) == (false, false)
                &&& r.persist_auto_connect == Some(false)
            },
            old(self).should_connect ==> {
                &&& r.retry
                &&& r.persist_auto_connect.is_none()
                &&& end != AttemptEnd::Unreachable ==> final(self).is_connecting
                    && r.status.is_some() && status_pair(r.status.unwrap()) == (false, true)
                &&& end == AttemptEnd::Unreachable ==> r.status.is_none()
                    && final(self).is_connecting == old(self).is_connecting
            },
    {
        self.is_connected = false;
        if !self.should_connect {
            self.is_connecting = false;
            return AfterAttempt {
                status: Some(BotStatusResponse { connected: false, connecting: false }),
                persist_auto_connect: Some(false),
                retry: false,
            };
        }
        match end {
            AttemptEnd::Unreachable => AfterAttempt { status: None, persist_auto_connect: None, retry: true },
            _ => {
                self.is_connecting = true;
                AfterAttempt {
                    status: Some(BotStatusResponse { connected: false, connecting: true }),
                    persist_auto_connect: None,
                    retry: true,
                }
            },
        }
    }

    /// The user disconnects: nothing is wanted any more.
    pub fn disconnect(&mut self) -> (r: BotStatusResponse)
        ensures
            !final(self).should_connect && !final(self).is_connected && !final(self).is_connecting,
            status_pair(r) == (false, false),
    {
        self.is_connected = false;
        self.is_connecting = false;
        self.should_connect = false;
        BotStatusResponse { connected: false, connecting: false }
    }

    pub fn status(&self) -> (r: BotStatusResponse)
        ensures
            status_pair(r) == (self.is_connected, self.is_connecting),
    {
        BotStatusResponse { connected: self.is_connected, connecting: self.is_connecting }
    }
}

} // verus!
