//! The relaxed trust policy: full chain validation is delegated to the
//! platform verifier, and of all its failures exactly the name mismatch is
//! converted into acceptance. Deployments that share one certificate across
//! many instances addressed by IP keep every other trust property.

use vstd::prelude::*;

verus! {

/// How the platform verifier judged a presented certificate chain.
#[derive(Clone, Copy, Debug, PartialEq, Eq, Structural)]
pub enum ChainVerdict {
    /// The chain is valid and matches the requested server name.
    Valid,
    /// The chain is valid but is not valid for the requested server name.
    NameMismatch,
    /// A certificate of the chain is expired (or not yet valid).
    Expired,
    /// The chain does not lead to a trusted issuer.
    UntrustedIssuer,
    /// The chain is invalid for any other reason (malformed, revoked, ...).
    OtherInvalid,
}

/// Whether the relaxed policy accepts a chain judgement: only a valid chain passes,
/// with or without a matching name; every other failure is propagated.
pub open spec fn relaxed_accepts(v: ChainVerdict) -> bool {
    v == ChainVerdict::Valid || v == ChainVerdict::NameMismatch
}

/// Applies the relaxed hostname policy to what the platform verifier found.
pub fn apply_relaxed_hostname_policy(v: &ChainVerdict) -> (ok: bool)
    ensures
        ok == relaxed_accepts(*v),
{
    match v {
        ChainVerdict::Valid => true,
        ChainVerdict::NameMismatch => true,
        ChainVerdict::Expired => false,
        ChainVerdict::UntrustedIssuer => false,
        ChainVerdict::OtherInvalid => false,
    }
}

/// The trust policy accepts a valid chain whose name does not match, and
/// rejects an invalid chain — expired or untrusted — whatever its name: a
/// name mismatch is reported only for chains the platform verifier found
/// otherwise valid, so acceptance of `NameMismatch` never waives chain
/// validity, and no failing judgement besides the name mismatch is accepted.
pub proof fn lemma_trust_policy()
    ensures
        relaxed_accepts(ChainVerdict::NameMismatch),
        !relaxed_accepts(ChainVerdict::Expired),
        !relaxed_accepts(ChainVerdict::UntrustedIssuer),
        !relaxed_accepts(ChainVerdict::OtherInvalid),
        forall|v: ChainVerdict| relaxed_accepts(v) && v != ChainVerdict::Valid ==> v
            == ChainVerdict::NameMismatch,
{
}

} // verus!
