//! Bearer capabilities of Sessions and Host connections.
use rand::RngCore;
use vstd::prelude::*;
use vstd::utf8::*;

use crate::digest::{
    digest_form, digest_shaped, digest_text, hex_forms_are_digest_shaped, hex_text, is_digest,
};
use crate::error::{refusal, refuse, CoordinatorError, ErrorCategory, Refusal};

verus! {

/// `rand::RngCore::fill_bytes` on the thread's generator: 32 bytes, of which nothing more is
/// claimed. It stops the program where the operating system has no randomness to seed it.
#[verifier::external_body]
fn random_bytes() -> (r: [u8; 32]) {
    let mut bytes = [0_u8; 32];
    rand::rng().fill_bytes(&mut bytes);
    bytes
}

/// The bearer that 32 random bytes make.
pub fn bearer_of(bytes: [u8; 32]) -> (r: String)
    ensures
        r@ == crate::digest::hex_form(bytes@),
        digest_shaped(r@),
{
    proof {
        hex_forms_are_digest_shaped(bytes@);
    }
    hex_text(bytes.as_slice())
}

/// Opaque bearer value issued to one live Harness Session.
#[derive(Debug, Clone)]
pub struct SessionCapability(pub String);

/// Opaque bearer scoped to one live pane-resident Host connection generation.
#[derive(Debug, Clone)]
pub struct HostConnectionCapability(pub String);

impl View for SessionCapability {
    type V = Seq<char>;

    open spec fn view(&self) -> Seq<char> {
        self.0@
    }
}

impl View for HostConnectionCapability {
    type V = Seq<char>;

    open spec fn view(&self) -> Seq<char> {
        self.0@
    }
}

/// What is stored of a bearer: its digest.
pub open spec fn stored_form(bearer: Seq<char>) -> Seq<char> {
    digest_form(encode_utf8(bearer))
}

pub open spec fn session_shape_refusal() -> Refusal {
    refusal(ErrorCategory::Unauthenticated, "Session capability has an invalid shape"@)
}

pub open spec fn host_shape_refusal() -> Refusal {
    refusal(ErrorCategory::Unauthenticated, "Host connection capability has an invalid shape"@)
}

impl SessionCapability {
    /// A new random bearer.
    pub fn generate() -> (r: SessionCapability)
        ensures
            digest_shaped(r@),
    {
        SessionCapability(bearer_of(random_bytes()))
    }

    /// What is stored of the bearer.
    pub fn digest(&self) -> (r: String)
        ensures
            r@ == stored_form(self@),
            digest_shaped(r@),
    {
        digest_text(self.0.as_str())
    }

    /// Reads a bearer; it has the form of 32 bytes in lowercase hexadecimal digits.
    pub fn from_bearer(value: String) -> (r: Result<SessionCapability, CoordinatorError>)
        ensures
            match r {
                Ok(c) => digest_shaped(value@) && c@ == value@,
                Err(e) => !digest_shaped(value@) && e@ == session_shape_refusal(),
            },
    {
        if is_digest(value.as_str()) {
            Ok(SessionCapability(value))
        } else {
            Err(refuse(ErrorCategory::Unauthenticated, "Session capability has an invalid shape"))
        }
    }
}

impl HostConnectionCapability {
    /// A new random bearer.
    pub fn generate() -> (r: HostConnectionCapability)
        ensures
            digest_shaped(r@),
    {
        HostConnectionCapability(bearer_of(random_bytes()))
    }

    /// What is stored of the bearer.
    pub fn digest(&self) -> (r: String)
        ensures
            r@ == stored_form(self@),
            digest_shaped(r@),
    {
        digest_text(self.0.as_str())
    }

    /// Reads a bearer; it has the form of 32 bytes in lowercase hexadecimal digits.
    pub fn from_bearer(value: String) -> (r: Result<HostConnectionCapability, CoordinatorError>)
        ensures
            match r {
                Ok(c) => digest_shaped(value@) && c@ == value@,
                Err(e) => !digest_shaped(value@) && e@ == host_shape_refusal(),
            },
    {
        if is_digest(value.as_str()) {
            Ok(HostConnectionCapability(value))
        } else {
            Err(
                refuse(
                    ErrorCategory::Unauthenticated,
                    "Host connection capability has an invalid shape",
                ),
            )
        }
    }
}

/// Who gives a command or asks a query.
#[derive(Debug, Clone)]
#[allow(inconsistent_fields)]
pub enum ActorContext {
    /// Initial sole-Supervisor registration only.
    Bootstrap,
    /// Live Session authenticated by capability.
    Session { capability: SessionCapability },
    /// Current pane-resident Host generation authenticated by its expiring lease.
    Host { capability: HostConnectionCapability },
}

impl From<SessionCapability> for ActorContext {
    fn from(capability: SessionCapability) -> (r: ActorContext) {
        ActorContext::Session { capability }
    }
}

impl vstd::std_specs::convert::FromSpecImpl<SessionCapability> for ActorContext {
    open spec fn obeys_from_spec() -> bool {
        true
    }

    open spec fn from_spec(capability: SessionCapability) -> ActorContext {
        ActorContext::Session { capability }
    }
}

impl From<HostConnectionCapability> for ActorContext {
    fn from(capability: HostConnectionCapability) -> (r: ActorContext) {
        ActorContext::Host { capability }
    }
}

impl vstd::std_specs::convert::FromSpecImpl<HostConnectionCapability> for ActorContext {
    open spec fn obeys_from_spec() -> bool {
        true
    }

    open spec fn from_spec(capability: HostConnectionCapability) -> ActorContext {
        ActorContext::Host { capability }
    }
}

} // verus!
