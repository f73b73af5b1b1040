//! Durable identities.
use vstd::prelude::*;

use crate::digest::{hex_digit, hex_digits_differ};
use crate::error::{refusal, CoordinatorError, ErrorCategory};
use vstd::arithmetic::div_mod::{
    lemma_basic_div, lemma_div_denominator, lemma_fundamental_div_mod,
};
use vstd::arithmetic::power::{lemma_pow0, lemma_pow1, lemma_pow_adds, lemma_pow_positive, pow};

verus! {

/// Durable Task identity.
#[derive(Debug, Clone, Copy, PartialEq, Eq, PartialOrd, Ord, Hash, Structural)]
pub struct TaskId(pub u128);

/// Durable Bus Message identity.
#[derive(Debug, Clone, Copy, PartialEq, Eq, PartialOrd, Ord, Hash, Structural)]
pub struct MessageId(pub u128);

/// Durable Harness Session identity.
#[derive(Debug, Clone, Copy, PartialEq, Eq, PartialOrd, Ord, Hash, Structural)]
pub struct HarnessSessionId(pub u128);

/// Immutable Attachment identity.
#[derive(Debug, Clone, Copy, PartialEq, Eq, PartialOrd, Ord, Hash, Structural)]
pub struct AttachmentId(pub u128);

/// Durable Supervisor event identity.
#[derive(Debug, Clone, Copy, PartialEq, Eq, PartialOrd, Ord, Hash, Structural)]
pub struct SupervisorEventId(pub u128);

/// Delivery attempt identity.
#[derive(Debug, Clone, Copy, PartialEq, Eq, PartialOrd, Ord, Hash, Structural)]
pub struct DeliveryAttemptId(pub u128);

/// Worktree Hold identity.
#[derive(Debug, Clone, Copy, PartialEq, Eq, PartialOrd, Ord, Hash, Structural)]
pub struct WorktreeHoldId(pub u128);

/// Repository Observation identity.
#[derive(Debug, Clone, Copy, PartialEq, Eq, PartialOrd, Ord, Hash, Structural)]
pub struct RepositoryObservationId(pub u128);

/// Task graph watch identity.
#[derive(Debug, Clone, Copy, PartialEq, Eq, PartialOrd, Ord, Hash, Structural)]
pub struct TaskGraphWatchId(pub u128);

/// Host connection identity.
#[derive(Debug, Clone, Copy, PartialEq, Eq, PartialOrd, Ord, Hash, Structural)]
pub struct HostConnectionId(pub u128);

/// Name of a registered Harness.
#[derive(Debug, Clone)]
pub struct HarnessId(pub String);

impl View for HarnessId {
    type V = Seq<char>;

    open spec fn view(&self) -> Seq<char> {
        self.0@
    }
}

impl HarnessId {
    /// The name as text.
    pub fn as_str(&self) -> (r: &str)
        ensures
            r@ == self@,
    {
        self.0.as_str()
    }
}

/// What `uuid::Uuid::parse_str` reads from a text: the number of the identity, or its own
/// diagnostic.
pub uninterp spec fn uuid_number(text: Seq<char>) -> Result<u128, Seq<char>>;

/// The number of hyphens that stand before a position of a written identity.
pub open spec fn hyphens_before(i: int) -> int {
    if i > 23 {
        4
    } else if i > 18 {
        3
    } else if i > 13 {
        2
    } else if i > 8 {
        1
    } else {
        0
    }
}

/// The written form of an identity: its 32 lowercase hexadecimal digits, the highest first, in
/// groups of 8, 4, 4, 4 and 12 with hyphens between them.
pub open spec fn uuid_form(number: u128) -> Seq<char> {
    Seq::new(
        36,
        |i: int|
            if i == 8 || i == 13 || i == 18 || i == 23 {
                '-'
            } else {
                hex_digit(
                    (number as int / pow(16, (31 - (i - hyphens_before(i))) as nat)) % 16,
                )
            },
    )
}

/// `uuid::Uuid::parse_str`: the same text always gives the same number or the same diagnostic.
#[verifier::external_body]
fn parse_uuid(text: &str) -> (r: Result<u128, String>)
    ensures
        match r {
            Ok(n) => uuid_number(text@) == Ok::<u128, Seq<char>>(n),
            Err(message) => uuid_number(text@) == Err::<u128, Seq<char>>(message@),
        },
{
    uuid::Uuid::parse_str(text).map(|uuid| uuid.as_u128()).map_err(|error| error.to_string())
}

/// `uuid::Uuid::from_u128` and its `Display`: the hyphenated lowercase form, which `parse_str` reads
/// back as the same number.
#[verifier::external_body]
fn write_uuid(number: u128) -> (r: String)
    ensures
        r@ == uuid_form(number),
        uuid_number(r@) is Ok,
        uuid_number(r@)->Ok_0 == number,
{
    uuid::Uuid::from_u128(number).to_string()
}

/// The hyphenated text of an identity.
pub fn uuid_text(number: u128) -> (r: String)
    ensures
        r@ == uuid_form(number),
        uuid_number(r@) is Ok,
        uuid_number(r@)->Ok_0 == number,
{
    write_uuid(number)
}

/// Reads a persisted identity; text that is no identity is a storage failure.
pub fn parse_uuid_id(value: &str) -> (r: Result<u128, CoordinatorError>)
    ensures
        match (r, uuid_number(value@)) {
            (Ok(n), Ok(number)) => n == number,
            (Err(e), Err(message)) => e@ == refusal(ErrorCategory::StorageFailure, message),
            _ => false,
        },
{
    match parse_uuid(value) {
        Ok(n) => Ok(n),
        Err(message) => Err(CoordinatorError::storage(message)),
    }
}

// ---------------------------------------------------------------------------------------------
// Laws
// ---------------------------------------------------------------------------------------------

proof fn digits_determine(a: int, b: int, k: nat)
    requires
        0 <= a < pow(16, 32),
        0 <= b < pow(16, 32),
        k <= 32,
        forall|j: nat|
            j < 32 ==> #[trigger] ((a / pow(16, j)) % 16) == (b / pow(16, j)) % 16,
    ensures
        a / pow(16, k) == b / pow(16, k),
    decreases 32 - k,
{
    lemma_pow_positive(16, k);
    if k == 32 {
        lemma_basic_div(a, pow(16, 32));
        lemma_basic_div(b, pow(16, 32));
    } else {
        digits_determine(a, b, k + 1);
        lemma_pow_positive(16, k);
        lemma_pow_adds(16, k, 1);
        lemma_pow1(16);
        lemma_div_denominator(a, pow(16, k), 16);
        lemma_div_denominator(b, pow(16, k), 16);
        lemma_fundamental_div_mod(a / pow(16, k), 16);
        lemma_fundamental_div_mod(b / pow(16, k), 16);
        assert((a / pow(16, k)) % 16 == (b / pow(16, k)) % 16);
    }
}

/// The position of a digit in a written identity.
pub open spec fn digit_position(j: nat) -> int {
    if j < 12 {
        35 - j
    } else if j < 16 {
        34 - j
    } else if j < 20 {
        33 - j
    } else if j < 24 {
        32 - j
    } else {
        31 - j
    }
}

/// No two identities are written alike.
pub proof fn written_identities_differ(a: u128, b: u128)
    requires
        uuid_form(a) == uuid_form(b),
    ensures
        a == b,
{
    lemma_pow1(16);
    lemma_pow_adds(16, 1, 1);
    lemma_pow_adds(16, 2, 2);
    lemma_pow_adds(16, 4, 4);
    lemma_pow_adds(16, 8, 8);
    lemma_pow_adds(16, 16, 16);
    assert(pow(16, 2) == 0x100);
    assert(pow(16, 2) * pow(16, 2) == 0x1_0000) by (nonlinear_arith)
        requires
            pow(16, 2) == 0x100,
    ;
    assert(pow(16, 4) * pow(16, 4) == 0x1_0000_0000) by (nonlinear_arith)
        requires
            pow(16, 4) == 0x1_0000,
    ;
    assert(pow(16, 8) * pow(16, 8) == 0x1_0000_0000_0000_0000) by (nonlinear_arith)
        requires
            pow(16, 8) == 0x1_0000_0000,
    ;
    assert(pow(16, 16) * pow(16, 16) == 0x1_0000_0000_0000_0000 * 0x1_0000_0000_0000_0000)
        by (nonlinear_arith)
        requires
            pow(16, 16) == 0x1_0000_0000_0000_0000,
    ;
    assert forall|j: nat| j < 32 implies #[trigger] ((a as int / pow(16, j)) % 16) == (b as int
        / pow(16, j)) % 16 by {
        let i = digit_position(j);
        assert(0 <= i < 36 && i != 8 && i != 13 && i != 18 && i != 23);
        assert((31 - (i - hyphens_before(i))) as nat == j);
        assert(uuid_form(a)[i] == hex_digit((a as int / pow(16, j)) % 16));
        assert(uuid_form(b)[i] == hex_digit((b as int / pow(16, j)) % 16));
        lemma_pow_positive(16, j);
        hex_digits_differ((a as int / pow(16, j)) % 16, (b as int / pow(16, j)) % 16);
    }
    digits_determine(a as int, b as int, 0);
    lemma_pow0(16);
}

} // verus!
