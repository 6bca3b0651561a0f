//! Proofs as the scheduler sees them, and what a run hands back.

use vstd::prelude::*;

verus! {

/// A proof, held as its canonical serialization. The scheduler never looks
/// inside: it orders proofs and hashes their bytes.
#[derive(Debug, Clone, PartialEq, Eq)]
pub struct Proof {
    pub bytes: Vec<u8>,
}

impl View for Proof {
    type V = Seq<u8>;

    open spec fn view(&self) -> Seq<u8> {
        self.bytes@
    }
}

impl Proof {
    /// Wraps the canonical serialization of a proof.
    pub fn from_bytes(bytes: Vec<u8>) -> (proof: Proof)
        ensures
            proof@ == bytes@,
    {
        Proof { bytes }
    }

    /// The canonical serialization.
    pub fn as_bytes(&self) -> (bytes: &[u8])
        ensures
            bytes@ == self@,
    {
        self.bytes.as_slice()
    }
}

/// What one job hands back on success: the proof for the input at `index`
/// and that proof's content hash.
#[derive(Debug, Clone, PartialEq, Eq)]
pub struct JobOutput {
    pub index: usize,
    pub proof: Proof,
    pub hash: String,
}

/// The proof and hash recorded for one input.
pub ghost struct ProvedInput {
    pub proof: Seq<u8>,
    pub hash: Seq<char>,
}

/// The mathematical value of a [`JobOutput`].
pub ghost struct JobOutputView {
    pub index: nat,
    pub proved: ProvedInput,
}

impl View for JobOutput {
    type V = JobOutputView;

    open spec fn view(&self) -> JobOutputView {
        JobOutputView {
            index: self.index as nat,
            proved: ProvedInput { proof: self.proof@, hash: self.hash@ },
        }
    }
}

/// The result of a successful run: one proof and one hash per input, in
/// the order of the task's inputs, and the task-level hash.
#[derive(Debug, Clone, PartialEq, Eq)]
pub struct PipelineOutcome {
    pub proofs: Vec<Proof>,
    pub combined_hash: String,
    pub proof_hashes: Vec<String>,
}

/// The mathematical value of a [`PipelineOutcome`].
pub ghost struct PipelineOutcomeView {
    pub proofs: Seq<Seq<u8>>,
    pub combined_hash: Seq<char>,
    pub proof_hashes: Seq<Seq<char>>,
}

/// The values of a sequence of proofs.
pub open spec fn proof_views(proofs: Seq<Proof>) -> Seq<Seq<u8>> {
    Seq::new(proofs.len(), |i: int| proofs[i]@)
}

/// The values of a sequence of strings.
pub open spec fn string_views(strings: Seq<String>) -> Seq<Seq<char>> {
    Seq::new(strings.len(), |i: int| strings[i]@)
}

impl View for PipelineOutcome {
    type V = PipelineOutcomeView;

    open spec fn view(&self) -> PipelineOutcomeView {
        PipelineOutcomeView {
            proofs: proof_views(self.proofs@),
            combined_hash: self.combined_hash@,
            proof_hashes: string_views(self.proof_hashes@),
        }
    }
}

} // verus!
