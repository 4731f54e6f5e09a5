//! Error taxonomy of the ingestion pipeline.
//!
//! Artifact validation and decoding failures are resolved before any
//! transaction opens, so they can never leave partial state behind; a
//! write-phase failure always aborts the whole transaction.

use vstd::prelude::*;

verus! {

/// One of the known artifacts of a scraper-run directory.
#[derive(Clone, Copy, Debug, PartialEq, Eq, Structural)]
pub enum ArtifactKind {
    /// `config.json` / `meta.json`: run metadata.
    Config,
    /// `usage.json`: request and token usage.
    Usage,
    /// `jurisdictions.json`: the jurisdiction manifest.
    Jurisdictions,
    /// `quantitative_ordinances.csv`: ordinance records.
    Ordinances,
    /// `logs/all.log`: the runtime log.
    RuntimeLog,
    /// `ordinance_files/`: the archived source documents.
    SourceDir,
}

/// One family of derived rows written under a provenance record.
#[derive(Clone, Copy, Debug, PartialEq, Eq, Structural)]
pub enum EntityFamily {
    /// Jurisdiction rows together with their document rows.
    Jurisdictions,
    /// Quantitative ordinance rows.
    Ordinances,
    /// The usage hierarchy: run, per-jurisdiction, per-event rows.
    Usage,
    /// Retained runtime log rows.
    Logs,
    /// The run configuration row.
    Config,
}

/// Failure of an ingestion step.
#[derive(Clone, Copy, Debug, PartialEq, Eq, Structural)]
pub enum IngestError {
    /// A required artifact file or directory is absent.
    MissingArtifact(ArtifactKind),
    /// A JSON artifact exceeds the size bound; its content was not parsed.
    OversizedArtifact(ArtifactKind),
    /// An artifact is present but structurally invalid.
    MalformedArtifact(ArtifactKind),
    /// A write-phase failure: the whole transaction was rolled back and
    /// no row of this run is visible.
    TransactionAborted(EntityFamily),
    /// The storage engine failed; here, its id sequence is exhausted.
    DatabaseError,
}

} // verus!
