//! The outcome of an appraisal of a sandbox.

use vstd::prelude::*;

verus! {

/// How far each aspect of a sandbox can be trusted.
#[derive(Debug, Clone, Copy, PartialEq, Eq, Structural)]
pub struct SandboxAttestationTrustworthinessVector {
    pub hardware: i32,
    pub executables: i32,
    pub configuration: i32,
    pub file_system: i32,
}

/// What was measured of a boot component, beside what was expected.
#[derive(Debug)]
pub struct SandboxAttestationMeasurement {
    pub component: String,
    pub algorithm: String,
    pub measurement: String,
    pub references: Vec<String>,
}

/// An appraisal as it is shown.
#[derive(Debug)]
pub struct GetSandboxAttestationResponse {
    pub ear_status: String,
    pub policy_id: String,
    pub ar4si_vector: Option<SandboxAttestationTrustworthinessVector>,
    pub measurements: Vec<SandboxAttestationMeasurement>,
}

} // verus!
