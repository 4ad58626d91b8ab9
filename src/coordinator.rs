//! The two operations offered to participants: submitting a fragment and
//! listing the held ones, with the status text a submission reports.

use vstd::prelude::*;
use vstd::string::{StringExecFns, StringSliceAdditionalSpecFns};

use crate::assembler::{reconstruction_spec, AssemblyError, Reconstruction};
use crate::fragment::{derive_fragment, fragment_spec, FragmentError};
use crate::network::NetworkKind;
use crate::store::{
    after_submit, store_ok, submit_outcome, MyCoordinator, Shares, StoreOutcome, SHAMIR_THRESHOLD,
};

verus! {

/// What one submission did: its effect on the store, and the reconstruction
/// it ran, if any.
#[derive(Debug)]
pub struct SubmitReport {
    pub stored: StoreOutcome,
    pub reconstruction: Reconstruction,
}

/// A submission to a store in state `s` is accepted and brings it to at least
/// `SHAMIR_THRESHOLD` fragments.
pub open spec fn reconstruction_due(s: Shares, key: Seq<char>, index: u32) -> bool {
    submit_outcome(s, key, index) matches StoreOutcome::Accepted(n) && n >= SHAMIR_THRESHOLD
}

/// `r` reports the submission of a fragment to a store in state `before`.
pub open spec fn reports_submission(
    r: SubmitReport,
    before: Shares,
    key: Seq<char>,
    index: u32,
    network: NetworkKind,
    path: Seq<char>,
) -> bool {
    let after = after_submit(before, key, index);
    &&& r.stored == submit_outcome(before, key, index)
    &&& (r.reconstruction is NotYetTriggered <==> !reconstruction_due(before, key, index))
    &&& (r.reconstruction matches Reconstruction::Recovered(k) ==> reconstruction_spec(after, network, path)
        == Ok::<Seq<char>, AssemblyError>(k@))
    &&& (r.reconstruction matches Reconstruction::Failed(e) ==> reconstruction_spec(after, network, path)
        == Err::<Seq<char>, AssemblyError>(e))
}

impl MyCoordinator {
    /// Stores a fragment and, where that brings the store to the threshold,
    /// reconstructs the secret and derives the key along the path.
    pub fn add_share(&mut self, key_hex: String, index: u32, network: NetworkKind, derivation_path: &str) -> (r: SubmitReport)
        requires
            old(self).wf(),
        ensures
            final(self).wf(),
            final(self)@ == after_submit(old(self)@, key_hex@, index),
            reports_submission(r, old(self)@, key_hex@, index, network, derivation_path@),
    {
        let stored = self.store_share(key_hex, index);
        let reconstruction = match stored {
            StoreOutcome::Accepted(_) => self.maybe_reconstruct(network, derivation_path),
            _ => Reconstruction::NotYetTriggered,
        };
        SubmitReport { stored, reconstruction }
    }

    /// Derives a fragment from a mnemonic and password and submits it under
    /// the index; a mnemonic that gives no fragment leaves the store as it was.
    pub fn add_mnemonic(
        &mut self,
        mnemonic: &str,
        index: u32,
        password: &str,
        network: NetworkKind,
        derivation_path: &str,
    ) -> (r: Result<SubmitReport, FragmentError>)
        requires
            old(self).wf(),
        ensures
            final(self).wf(),
            match fragment_spec(mnemonic@, password.spec_bytes()) {
                Err(e) => r matches Err(e2) && e2 == e && final(self)@ == old(self)@,
                Ok(key) => r matches Ok(rep) && final(self)@ == after_submit(old(self)@, key, index)
                    && reports_submission(rep, old(self)@, key, index, network, derivation_path@),
            },
    {
        match derive_fragment(mnemonic, password) {
            Ok(key_hex) => Ok(self.add_share(key_hex, index, network, derivation_path)),
            Err(e) => Err(e),
        }
    }
}


/// Reconstruction is due exactly when a submission changes the store and
/// leaves it holding at least `SHAMIR_THRESHOLD` fragments; so it always runs
/// on the submission that first reaches the threshold, and never on one that
/// is refused.
pub proof fn lemma_reconstruction_trigger(s: Shares, key: Seq<char>, index: u32)
    requires
        store_ok(s),
    ensures
        reconstruction_due(s, key, index) <==> (after_submit(s, key, index) != s && after_submit(
            s,
            key,
            index,
        ).len() >= SHAMIR_THRESHOLD),
        s.len() < SHAMIR_THRESHOLD <= after_submit(s, key, index).len() ==> reconstruction_due(
            s,
            key,
            index,
        ),
        !(submit_outcome(s, key, index) is Accepted) ==> !reconstruction_due(s, key, index),
{
    if submit_outcome(s, key, index) is Accepted {
        assert(after_submit(s, key, index).len() == s.len() + 1);
    }
}

/// A short description of a failed reconstruction.
pub open spec fn assembly_error_text(e: AssemblyError) -> Seq<char> {
    match e {
        AssemblyError::InternalInconsistency => "a held fragment is not valid hex"@,
        AssemblyError::ReconstructionFailed => "the fragments do not combine into a secret"@,
        AssemblyError::DerivationFailed => "no key could be derived from the secret"@,
    }
}

/// What a delivery of the recovered key adds to the status text.
pub open spec fn delivery_text(delivery: Option<Result<(), String>>) -> Seq<char> {
    match delivery {
        None => Seq::empty(),
        Some(Ok(())) => " Secret sent to server."@,
        Some(Err(e)) => " Error sending secret to server: "@ + e@,
    }
}

/// The status text of a submission, given how the delivery of a recovered
/// key went, if one was attempted.
pub open spec fn status_spec(report: SubmitReport, delivery: Option<Result<(), String>>) -> Seq<char> {
    match report.stored {
        StoreOutcome::CapacityReached => "Enough key shares have already been added."@,
        StoreOutcome::Duplicate => "Key already exists."@,
        StoreOutcome::Accepted(_) => match report.reconstruction {
            Reconstruction::NotYetTriggered => "Key added successfully"@,
            Reconstruction::Recovered(_) => "Key added successfully and secret recovered."@
                + delivery_text(delivery),
            Reconstruction::Failed(e) => "Key added successfully but secret recovery failed: "@
                + assembly_error_text(e),
        },
    }
}

fn assembly_error_message(e: AssemblyError) -> (r: String)
    ensures
        r@ == assembly_error_text(e),
{
    match e {
        AssemblyError::InternalInconsistency => String::from_str("a held fragment is not valid hex"),
        AssemblyError::ReconstructionFailed => String::from_str(
            "the fragments do not combine into a secret",
        ),
        AssemblyError::DerivationFailed => String::from_str("no key could be derived from the secret"),
    }
}

/// Composes the status text of a submission.
pub fn status_message(report: &SubmitReport, delivery: &Option<Result<(), String>>) -> (r: String)
    ensures
        r@ == status_spec(*report, *delivery),
{
    match report.stored {
        StoreOutcome::CapacityReached => String::from_str("Enough key shares have already been added."),
        StoreOutcome::Duplicate => String::from_str("Key already exists."),
        StoreOutcome::Accepted(_) => match &report.reconstruction {
            Reconstruction::NotYetTriggered => String::from_str("Key added successfully"),
            Reconstruction::Recovered(_) => {
                let mut message = String::from_str("Key added successfully and secret recovered.");
                match delivery {
                    None => {},
                    Some(Ok(())) => {
                        message.append(" Secret sent to server.");
                    },
                    Some(Err(e)) => {
                        message.append(" Error sending secret to server: ");
                        message.append(e.as_str());
                    },
                }
                message
            },
            Reconstruction::Failed(e) => {
                let message = String::from_str("Key added successfully but secret recovery failed: ");
                let detail = assembly_error_message(*e);
                message.concat(detail.as_str())
            },
        },
    }
}

} // verus!
