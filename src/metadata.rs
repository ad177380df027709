//! Descriptive records that travel with specifications and evidence.
use vstd::prelude::*;

verus! {

/// Version, name and description of a specification.
#[derive(Clone, Debug)]
pub struct SpecMetadata {
    pub version: String,
    pub name: String,
    pub description: String,
}

/// Identity and provenance of an evidence artifact.
#[derive(Clone, Debug)]
pub struct EvidenceMetadata {
    pub artifact_id: String,
    pub generated_at: String,
    pub spec_version: String,
    pub kernel_version: String,
}

/// Counts of an execution trace and the violations it recorded.
#[derive(Clone, Debug)]
pub struct EvidenceSummary {
    pub total_states: usize,
    pub successful_verifications: usize,
    pub failed_verifications: usize,
    pub contract_violations: Vec<String>,
}

} // verus!
