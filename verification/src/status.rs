//! Status enumerations for viewer sessions and the publisher slot,
//! together with their per-status expiry policies.

use vstd::prelude::*;
use crate::text::str_eq;

verus! {

/// How long a freshly created (still unanswered) viewer session lives, in seconds.
pub const PENDING_TTL_SECS: u64 = 60;
/// How long an authorized viewer session lives without activity, in seconds.
pub const LEGAL_TTL_SECS: u64 = 3600;
/// How long a denied viewer session is remembered, in seconds.
pub const NIL_TTL_SECS: u64 = 60;
/// How long a viewer that stopped playback is kept before eviction, in seconds.
pub const RESTING_TTL_SECS: u64 = 7200;
/// How long an idle publisher slot may sit before it is reclaimed, in seconds.
pub const STANDBY_TTL_SECS: u64 = 180;
/// How long an interrupted stream may wait for a resume, in seconds.
pub const PAUSING_TTL_SECS: u64 = 600;

/// State of a single viewer session.
#[derive(Debug, Clone, Copy, PartialEq, Eq, Structural)]
pub enum ClientStatus {
    /// New viewer, challenge issued, answer not yet submitted.
    Pending,
    /// Answered correctly; may pull the stream.
    Legal,
    /// Answered incorrectly; only ever sees the decoy locator.
    Nil,
    /// Playback in progress; never expires on its own.
    Playing,
    /// Playback stopped; kept around in case the viewer returns.
    Resting,
}

impl ClientStatus {
    /// The wire label of each status.
    pub fn as_str(&self) -> (r: &'static str)
        ensures
            r@ == self.label(),
    {
        match self {
            Self::Pending => "pending",
            Self::Legal => "legal",
            Self::Nil => "nil",
            Self::Playing => "playing",
            Self::Resting => "resting",
        }
    }

    /// The label of each status as a sequence of characters.
    pub open spec fn label(self) -> Seq<char> {
        match self {
            Self::Pending => "pending"@,
            Self::Legal => "legal"@,
            Self::Nil => "nil"@,
            Self::Playing => "playing"@,
            Self::Resting => "resting"@,
        }
    }

    /// Parses a wire label back into a status; inverse of `as_str`.
    pub fn from_str(s: &str) -> (r: Option<Self>)
        ensures
            r matches Some(st) ==> s@ == st.label(),
            r is None ==> forall|st: ClientStatus| s@ != st.label(),
    {
        proof {
            reveal_strlit("pending");
            reveal_strlit("legal");
            reveal_strlit("nil");
            reveal_strlit("playing");
            reveal_strlit("resting");
        }
        if str_eq(s, "pending") {
            Some(Self::Pending)
        } else if str_eq(s, "legal") {
            Some(Self::Legal)
        } else if str_eq(s, "nil") {
            Some(Self::Nil)
        } else if str_eq(s, "playing") {
            Some(Self::Playing)
        } else if str_eq(s, "resting") {
            Some(Self::Resting)
        } else {
            None
        }
    }

    /// Whether this status grants access to the stream and the chat log.
    pub fn is_authorized(&self) -> (r: bool)
        ensures
            r == self.spec_is_authorized(),
    {
        matches!(self, Self::Legal | Self::Playing | Self::Resting)
    }

    /// Authorized statuses: answered correctly, playing, or resting.
    pub open spec fn spec_is_authorized(self) -> bool {
        self == ClientStatus::Legal || self == ClientStatus::Playing || self == ClientStatus::Resting
    }

    /// Seconds of inactivity after which a session in this status expires;
    /// `None` means the status never expires.
    pub fn expiration_duration(&self) -> (r: Option<u64>)
        ensures
            r == self.ttl(),
    {
        match self {
            Self::Pending => Some(PENDING_TTL_SECS),
            Self::Legal => Some(LEGAL_TTL_SECS),
            Self::Nil => Some(NIL_TTL_SECS),
            Self::Playing => None,
            Self::Resting => Some(RESTING_TTL_SECS),
        }
    }

    /// The expiry policy of each status.
    pub open spec fn ttl(self) -> Option<u64> {
        match self {
            Self::Pending => Some(PENDING_TTL_SECS),
            Self::Legal => Some(LEGAL_TTL_SECS),
            Self::Nil => Some(NIL_TTL_SECS),
            Self::Playing => None,
            Self::Resting => Some(RESTING_TTL_SECS),
        }
    }
}

/// State of the single publisher slot.
#[derive(Debug, Clone, Copy, PartialEq, Eq, Structural)]
pub enum StreamerStatus {
    /// No broadcast; the slot is free.
    Standby,
    /// Broadcast in progress; never expires on its own.
    Streaming,
    /// Broadcast interrupted; the same secret may resume it for a while.
    Pausing,
}

impl StreamerStatus {
    /// The wire label of each status.
    pub fn as_str(&self) -> (r: &'static str)
        ensures
            r@ == self.label(),
    {
        match self {
            Self::Standby => "standby",
            Self::Streaming => "streaming",
            Self::Pausing => "pausing",
        }
    }

    /// The label of each status as a sequence of characters.
    pub open spec fn label(self) -> Seq<char> {
        match self {
            Self::Standby => "standby"@,
            Self::Streaming => "streaming"@,
            Self::Pausing => "pausing"@,
        }
    }

    /// Seconds of inactivity after which the slot in this status expires;
    /// `None` means the status never expires.
    pub fn expiration_duration(&self) -> (r: Option<u64>)
        ensures
            r == self.ttl(),
    {
        match self {
            Self::Standby => Some(STANDBY_TTL_SECS),
            Self::Streaming => None,
            Self::Pausing => Some(PAUSING_TTL_SECS),
        }
    }

    /// The expiry policy of each status.
    pub open spec fn ttl(self) -> Option<u64> {
        match self {
            Self::Standby => Some(STANDBY_TTL_SECS),
            Self::Streaming => None,
            Self::Pausing => Some(PAUSING_TTL_SECS),
        }
    }
}

} // verus!
