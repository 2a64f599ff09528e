//! Where the password login answers.
//!
//! A node behind an identity provider can keep its local accounts for the
//! operator on the host, or turn them off. Only the socket peer decides: a
//! forwarded header is client-supplied data.

use vstd::prelude::*;
use vstd::string::*;

use crate::error::{not_found, refusal, ApiError, ErrorCode};
use crate::text::{debug_text, quoted};

verus! {

/// Where the password login answers.
#[derive(Clone, Copy, Debug, PartialEq, Eq, Structural)]
pub enum LocalLogin {
    /// Every caller. The default.
    Always,
    /// Only a connection whose peer address is loopback. Anyone else is
    /// refused with a 403 that names the setting.
    LoopbackOnly,
    /// Nobody: the route answers 404.
    Disabled,
}

impl Default for LocalLogin {
    fn default() -> (mode: Self)
        ensures
            mode == LocalLogin::Always,
    {
        LocalLogin::Always
    }
}

/// The address a connection came from.
#[derive(Clone, Copy, Debug, PartialEq, Eq)]
pub enum PeerAddr {
    V4([u8; 4]),
    V6([u16; 8]),
}

impl PeerAddr {
    /// Whether the address is the host's own: `127.0.0.0/8`, or `::1`.
    pub open spec fn loopback(self) -> bool {
        match self {
            PeerAddr::V4(octets) => octets@[0] == 127,
            PeerAddr::V6(segments) => segments@ == seq![0u16, 0, 0, 0, 0, 0, 0, 1],
        }
    }

    pub fn is_loopback(&self) -> (b: bool)
        ensures
            b == self.loopback(),
    {
        match self {
            PeerAddr::V4(octets) => octets[0] == 127,
            PeerAddr::V6(s) => {
                let b = s[0] == 0 && s[1] == 0 && s[2] == 0 && s[3] == 0 && s[4] == 0 && s[5] == 0
                    && s[6] == 0 && s[7] == 1;
                proof {
                    let expected = seq![0u16, 0, 0, 0, 0, 0, 0, 1];
                    if b {
                        assert(s@ =~= expected);
                    } else if s@ == expected {
                        assert(s@[0] == expected[0] && s@[7] == expected[7]);
                    }
                }
                b
            },
        }
    }
}

/// How a connection that may not log in here is answered.
pub open spec fn loopback_refusal() -> crate::error::ApiErrorView {
    refusal(
        403,
        ErrorCode::Forbidden,
        "local login is restricted to loopback connections on this node (auth.local.login = \"loopback_only\"); log in from the node's own host, or through the identity provider"@,
    )
}

/// How any connection is answered where local login is off.
pub open spec fn disabled_refusal() -> crate::error::ApiErrorView {
    not_found(
        "local login is disabled on this node (auth.local.login = \"disabled\"); authenticate through the identity provider"@,
    )
}

impl LocalLogin {
    /// The configured name of a mode.
    pub open spec fn word(self) -> Seq<char> {
        match self {
            LocalLogin::Always => "always"@,
            LocalLogin::LoopbackOnly => "loopback_only"@,
            LocalLogin::Disabled => "disabled"@,
        }
    }

    /// Parse the configured name.
    pub fn parse(name: &str) -> (mode: Result<Self, String>)
        ensures
            mode matches Ok(m) ==> m.word() == name@,
            mode is Err ==> forall|other: LocalLogin| #[trigger] other.word() != name@,
            mode matches Err(e) ==> e@ == "unknown local login mode "@ + quoted(name@)
                    + "; expected always, loopback_only or disabled"@,
    {
        if *name == *"always" {
            Ok(LocalLogin::Always)
        } else if *name == *"loopback_only" {
            Ok(LocalLogin::LoopbackOnly)
        } else if *name == *"disabled" {
            Ok(LocalLogin::Disabled)
        } else {
            let mut e = "unknown local login mode ".to_owned();
            e.append(debug_text(name).as_str());
            e.append("; expected always, loopback_only or disabled");
            Err(e)
        }
    }

    pub fn name(self) -> (name: &'static str)
        ensures
            name@ == self.word(),
    {
        match self {
            LocalLogin::Always => "always",
            LocalLogin::LoopbackOnly => "loopback_only",
            LocalLogin::Disabled => "disabled",
        }
    }

    /// Whether a local token may be minted for a connection from `peer`.
    ///
    /// `None` is a connection the server could not attribute to a peer at all.
    /// Under `loopback_only` that is refused: failing open would be the wrong
    /// direction for a setting whose only purpose is to close.
    pub fn admits(self, peer: Option<PeerAddr>) -> (answer: Result<(), ApiError>)
        ensures
            answer is Ok <==> {
                ||| self == LocalLogin::Always
                ||| self == LocalLogin::LoopbackOnly && peer is Some && peer->0.loopback()
            },
            answer matches Err(e) ==> e@ == (if self == LocalLogin::LoopbackOnly {
                loopback_refusal()
            } else {
                disabled_refusal()
            }),
    {
        match self {
            LocalLogin::Always => Ok(()),
            LocalLogin::LoopbackOnly => {
                let local = match &peer {
                    Some(addr) => addr.is_loopback(),
                    None => false,
                };
                if local {
                    Ok(())
                } else {
                    // 403 rather than 404: the route exists and answers the
                    // neighbour.
                    Err(
                        ApiError::new(
                            403,
                            ErrorCode::Forbidden,
                            "local login is restricted to loopback connections on this node (auth.local.login = \"loopback_only\"); log in from the node's own host, or through the identity provider",
                        ),
                    )
                }
            },
            // 404, because here the route really is absent from what this node
            // offers.
            LocalLogin::Disabled => Err(
                ApiError::not_found(
                    "local login is disabled on this node (auth.local.login = \"disabled\"); authenticate through the identity provider",
                ),
            ),
        }
    }
}

/// Every mode's name parses back to the mode: no two modes share a name.
pub proof fn local_login_names_are_distinct(a: LocalLogin, b: LocalLogin)
    requires
        a.word() == b.word(),
    ensures
        a == b,
{
    reveal_strlit("always");
    reveal_strlit("loopback_only");
    reveal_strlit("disabled");
    assert(LocalLogin::Always.word().len() == 6);
    assert(LocalLogin::LoopbackOnly.word().len() == 13);
    assert(LocalLogin::Disabled.word().len() == 8);
}

/// Proof that the node's local login mode admits this connection: held by a
/// route that mints a local token.
pub struct LocalMinting;

} // verus!
