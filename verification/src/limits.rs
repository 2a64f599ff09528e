//! The limits the router applies to every request: how long one may take, how
//! large its body may be, and how much of a refused body is read before the
//! refusal is written.

use vstd::prelude::*;
use vstd::string::*;

use crate::text::{parse_u64, unsigned_number};

verus! {

/// The largest request body read where nothing sets a ceiling.
pub const DEFAULT_MAX_BODY_BYTES: usize = 2 * 1024 * 1024;

/// How long a request may take before this node abandons it, in milliseconds.
pub const DEFAULT_REQUEST_TIMEOUT_MS: u64 = 30_000;

/// How much of a refused body is read past the point of refusal before the
/// `413` is written, in bytes.
///
/// Close the socket while the client is still sending and the bytes still
/// arriving are answered with a reset, which can discard the refusal. Bounded,
/// because an unbounded read is what the ceiling exists to prevent.
pub const MAX_BODY_DRAIN_BYTES: usize = 4 * 1024 * 1024;

/// How long the drain may take before the `413` is written regardless, in
/// milliseconds.
pub const BODY_DRAIN_TIMEOUT_MS: u64 = 2_000;

/// The limits the router applies to every request.
#[derive(Clone, Copy, Debug, PartialEq, Eq, Structural)]
pub struct RequestLimits {
    /// Deadline for a request on a timed route, in milliseconds.
    pub request_timeout_ms: u64,
    /// Largest request body an extractor will read, in bytes.
    pub max_body_bytes: usize,
}

impl Default for RequestLimits {
    fn default() -> (limits: Self)
        ensures
            limits == (RequestLimits {
                request_timeout_ms: DEFAULT_REQUEST_TIMEOUT_MS,
                max_body_bytes: DEFAULT_MAX_BODY_BYTES,
            }),
    {
        RequestLimits {
            request_timeout_ms: DEFAULT_REQUEST_TIMEOUT_MS,
            max_body_bytes: DEFAULT_MAX_BODY_BYTES,
        }
    }
}

/// How long a request has left before it is abandoned: nothing once its
/// deadline has passed, and `None` outside a request with a deadline. Both
/// instants are of one clock, in one unit.
pub fn request_time_left(deadline: Option<u64>, now: u64) -> (left: Option<u64>)
    ensures
        left is Some <==> deadline is Some,
        left matches Some(left) ==> left == (if deadline->0 > now {
            deadline->0 - now
        } else {
            0
        }),
{
    match deadline {
        Some(at) => Some(
            if at > now {
                at - now
            } else {
                0
            },
        ),
        None => None,
    }
}

/// The length a `Content-Length` header declares.
pub fn declared_length(header: &str) -> (length: Option<usize>)
    ensures
        length == (match unsigned_number(header@) {
            Some(n) => if n <= usize::MAX {
                Some(n as usize)
            } else {
                None::<usize>
            },
            None => None::<usize>,
        }),
{
    match parse_u64(header) {
        Some(n) => if n <= usize::MAX as u64 {
            Some(n as usize)
        } else {
            None
        },
        None => None,
    }
}

/// How much of a refused body to read: what is left of its declared length,
/// and never more than [`MAX_BODY_DRAIN_BYTES`].
pub open spec fn drain_bound(declared: Option<usize>, read: usize) -> nat {
    let rest = match declared {
        Some(length) => if length > read {
            (length - read) as nat
        } else {
            0
        },
        None => MAX_BODY_DRAIN_BYTES as nat,
    };
    if rest < MAX_BODY_DRAIN_BYTES {
        rest
    } else {
        MAX_BODY_DRAIN_BYTES as nat
    }
}

/// The reading of the rest of a refused body.
#[derive(Clone, Copy, Debug, PartialEq, Eq, Structural)]
pub struct Drain {
    pub bound: usize,
    pub drained: usize,
}

/// Why a drain ended before the body did.
#[derive(Clone, Copy, Debug, PartialEq, Eq, Structural)]
pub enum DrainCut {
    /// The time for it ran out.
    Deadline,
    /// The bound was reached.
    Cap,
}

/// Whether a refused body is drained before its answer is sent: only under a
/// `413`, and only where the body has not ended.
pub fn drains(status: u16, ended: bool) -> (b: bool)
    ensures
        b == (status == 413 && !ended),
{
    status == 413 && !ended
}

impl Drain {
    pub fn new(declared: Option<usize>, read: usize) -> (drain: Self)
        ensures
            drain.bound == drain_bound(declared, read),
            drain.drained == 0,
    {
        let rest: usize = match declared {
            Some(length) => if length > read {
                length - read
            } else {
                0
            },
            None => MAX_BODY_DRAIN_BYTES,
        };
        Drain {
            bound: if rest < MAX_BODY_DRAIN_BYTES {
                rest
            } else {
                MAX_BODY_DRAIN_BYTES
            },
            drained: 0,
        }
    }

    /// Whether another frame is to be read.
    pub fn wants_more(&self) -> (b: bool)
        ensures
            b == (self.drained < self.bound),
    {
        self.drained < self.bound
    }

    /// A frame of `len` bytes was read and discarded.
    pub fn took(&mut self, len: usize)
        ensures
            final(self).bound == old(self).bound,
            final(self).drained == (if old(self).drained + len <= usize::MAX {
                (old(self).drained + len) as usize
            } else {
                usize::MAX
            }),
    {
        self.drained = self.drained.saturating_add(len);
    }

    /// What cut the drain short, once no more is read.
    pub fn cut(&self, timed_out: bool, ended: bool) -> (cut: Option<DrainCut>)
        ensures
            cut == (if timed_out {
                Some(DrainCut::Deadline)
            } else if self.drained >= self.bound && !ended {
                Some(DrainCut::Cap)
            } else {
                None::<DrainCut>
            }),
    {
        if timed_out {
            Some(DrainCut::Deadline)
        } else if self.drained >= self.bound && !ended {
            Some(DrainCut::Cap)
        } else {
            None
        }
    }
}

/// Draining a body frame by frame stops within one frame of the cap, however
/// much the client declares or sends: before each frame that is read, less
/// than [`MAX_BODY_DRAIN_BYTES`] had been.
pub proof fn a_drain_never_starts_a_frame_past_the_cap(
    declared: Option<usize>,
    read: usize,
    drained: nat,
)
    requires
        drained < drain_bound(declared, read),
    ensures
        drained < MAX_BODY_DRAIN_BYTES,
        declared matches Some(length) ==> read + drained < length,
{
}

} // verus!
