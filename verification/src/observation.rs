//! The observation envelope that every process-running adapter reports:
//! which bytes went in, which commands ran with which environment, what
//! they produced, and within which budget.
use vstd::prelude::*;

verus! {

/// Whether the observed operation passed.
#[derive(Clone, Copy, Debug, PartialEq, Eq)]
pub enum ObservationOutcome {
    Passed,
    Failed,
}

/// One artifact by logical name, SHA-256 and size.
#[derive(Clone, Debug, PartialEq, Eq)]
pub struct ArtifactObservation {
    pub logical_name: String,
    pub sha256: String,
    pub size_bytes: u64,
}

/// A tool by name, version and identity digest.
#[derive(Clone, Debug, PartialEq, Eq)]
pub struct ToolObservation {
    pub name: String,
    pub version: String,
    pub identity_sha256: String,
}

/// One typed command: program, arguments and the environment it saw.
#[derive(Clone, Debug, PartialEq, Eq)]
pub struct CommandObservation {
    pub program: String,
    pub args: Vec<String>,
    pub environment_allowlist: Vec<EnvironmentObservation>,
}

/// One allowed environment variable; a secret one is reported by presence.
#[derive(Clone, Debug, PartialEq, Eq)]
pub struct EnvironmentObservation {
    pub name: String,
    pub value_sha256: Option<String>,
    pub secret: bool,
}

/// The result of running one command.
#[derive(Clone, Debug, PartialEq, Eq)]
pub struct RunObservation {
    pub command_index: usize,
    pub exit_code: Option<i32>,
    pub stdout_sha256: String,
    pub stderr_sha256: String,
    pub normalized_output_sha256: String,
    pub output_truncated: bool,
    pub duration_ms: u64,
}

/// The declared resource budget.
#[derive(Clone, Copy, Debug, PartialEq, Eq)]
pub struct BudgetObservation {
    pub time_ms: u64,
    pub disk_bytes: u64,
    pub memory_bytes: u64,
}

/// The resources used; peak memory is reported only when measured.
#[derive(Clone, Copy, Debug, PartialEq, Eq)]
pub struct UsageObservation {
    pub time_ms: u64,
    pub peak_disk_bytes: u64,
    pub peak_memory_bytes: Option<u64>,
}

/// The common observation envelope of the Aeneas and Kani adapters.
#[derive(Clone, Debug, PartialEq, Eq)]
pub struct AdapterObservation {
    pub schema: String,
    pub unit_id: String,
    pub evidence_kind: String,
    pub outcome: ObservationOutcome,
    pub input_artifacts: Vec<ArtifactObservation>,
    pub generated_artifacts: Vec<ArtifactObservation>,
    pub tool: ToolObservation,
    pub adapter: ToolObservation,
    pub commands: Vec<CommandObservation>,
    pub runs: Vec<RunObservation>,
    pub started_unix_ms: u64,
    pub completed_unix_ms: u64,
    pub deterministic_result_sha256: String,
    pub unit_configuration_sha256: String,
    pub resource_budget: BudgetObservation,
    pub resource_usage: UsageObservation,
    pub inventory: Vec<String>,
    pub normalization: String,
}

/// The facts observed while replaying one registered source mutation: the
/// byte identities of the registry, the target before and after, the mutant
/// and the witness, and the positions of the baseline and of the run that
/// is expected to fail.
#[derive(Clone, Debug, PartialEq, Eq)]
pub struct MutationReplayObservation {
    pub schema: String,
    pub mutation_id: String,
    pub registry: ArtifactObservation,
    pub target_preimage: ArtifactObservation,
    pub mutant_artifact: ArtifactObservation,
    pub target_postimage: ArtifactObservation,
    pub witness_source: ArtifactObservation,
    pub check_id: String,
    pub affected_claims: Vec<String>,
    pub baseline_run_index: usize,
    pub expected_failure: ExpectedFailureObservation,
}

/// A run that is meant to exit non-zero, with the exit codes it may use.
#[derive(Clone, Debug, PartialEq, Eq)]
pub struct ExpectedFailureObservation {
    pub run_index: usize,
    pub allowed_exit_codes: Vec<i32>,
}

/// The artifact a canonical checker reported, by logical name and digest.
#[derive(Clone, Debug, PartialEq, Eq)]
pub struct ArtifactBindingObservation {
    pub artifact_logical_name: String,
    pub artifact_sha256: String,
}

/// The byte identities and role-separated tool identities of a trusted
/// transcription round trip; it carries no verdict of its own.
#[derive(Clone, Debug, PartialEq, Eq)]
pub struct TrustedTranscriptionObservation {
    pub schema: String,
    pub source: ArtifactObservation,
    pub committed_transcription: ArtifactObservation,
    pub transcribed_candidate: ArtifactObservation,
    pub reencoded_source: ArtifactObservation,
    pub driver: ArtifactObservation,
    pub driver_abi: String,
    pub source_format: String,
    pub transcribed_format: String,
    pub transcriber_role_identity: String,
    pub reencoder_role_identity: String,
}

/// The budget a unit declares, with its time converted to milliseconds,
/// saturating at `u64::MAX`.
pub fn budget_observation(time_seconds: u64, disk_bytes: u64, memory_bytes: u64) -> (b: BudgetObservation)
    ensures
        b.time_ms == if time_seconds * 1000 <= u64::MAX {
            time_seconds * 1000
        } else {
            u64::MAX as int
        },
        b.disk_bytes == disk_bytes,
        b.memory_bytes == memory_bytes,
{
    let time_ms: u64 = if time_seconds <= u64::MAX / 1000 {
        time_seconds * 1000
    } else {
        u64::MAX
    };
    BudgetObservation {
        time_ms,
        disk_bytes,
        memory_bytes,
    }
}

} // verus!
