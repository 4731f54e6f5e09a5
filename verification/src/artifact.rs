//! The artifact reader: locate and decode one scraper run's artifacts.
//!
//! The caller hands in what it found on disk — each known artifact's size
//! and text, and the source directory's files.  Everything here is pure
//! validation and decoding: a required artifact that is absent is a
//! `MissingArtifact` error; a JSON artifact over the size bound is an
//! `OversizedArtifact` error, rejected on its size alone, before and
//! regardless of any parse; structurally invalid content is a
//! `MalformedArtifact` error.  No storage is touched here.

use vstd::prelude::*;

use crate::checksum::SourceFile;
use crate::config::{config_fields_match, config_ok, ConfigRecord};
use crate::error::{ArtifactKind, IngestError};
use crate::json::{json_parse, num_field, remove_key, str_field, JsonValue};
use crate::jurisdiction::{collection_of, Collection, JurisdictionView};
use crate::log::{retained_records, RuntimeLogs};
use crate::ordinance::{ordinance_set_of, OrdinanceRecordView, OrdinanceSet};
use crate::text::dec_val;
use crate::usage::{usage_of, UsagePerItemView, UsageRecord};
use crate::MAX_JSON_FILE_SIZE;

verus! {

/// One artifact file as found on disk: its size in bytes, and its text.
///
/// The size is taken from the file's metadata, so that an oversized file
/// can be rejected before its content is ever read or parsed.
#[derive(Debug)]
pub struct FileBlob {
    pub size: u64,
    pub text: String,
}

/// The mathematical shape of an artifact file.
pub ghost struct FileBlobView {
    pub size: u64,
    pub text: Seq<char>,
}

impl View for FileBlob {
    type V = FileBlobView;

    open spec fn view(&self) -> FileBlobView {
        FileBlobView { size: self.size, text: self.text@ }
    }
}

/// What was found in a run directory: each known artifact, if present,
/// and the source-file directory's contents, if the directory exists.
#[derive(Debug)]
pub struct RunInput {
    /// `config.json` / `meta.json`.
    pub config: Option<FileBlob>,
    /// `usage.json`.
    pub usage: Option<FileBlob>,
    /// `jurisdictions.json`.
    pub jurisdictions: Option<FileBlob>,
    /// `quantitative_ordinances.csv`.
    pub ordinances: Option<FileBlob>,
    /// `logs/all.log`.
    pub log: Option<FileBlob>,
    /// The files of `ordinance_files/`; `None` when the directory is
    /// absent.
    pub source_files: Option<Vec<SourceFile>>,
}

/// The fully decoded artifacts of one run.
#[derive(Debug)]
pub struct ArtifactSet {
    pub config: ConfigRecord,
    pub usage: UsageRecord,
    pub jurisdictions: Collection,
    pub ordinances: OrdinanceSet,
    pub logs: RuntimeLogs,
    /// The archived source files, carried along for verification.
    pub source_files: Vec<SourceFile>,
}

/// Whether a parsed configuration document fails to decode.
pub open spec fn config_decode_fails(doc: JsonValue) -> bool {
    match doc {
        JsonValue::Obj(fields) => !config_ok(fields@),
        _ => true,
    }
}

/// Whether a configuration document decodes to exactly this record.
pub open spec fn config_decodes_to(doc: JsonValue, c: ConfigRecord) -> bool {
    match doc {
        JsonValue::Obj(fields) => config_ok(fields@) && config_fields_match(fields@, c),
        _ => false,
    }
}

/// The error `open` must return, if any: the artifacts are examined in a
/// fixed order, and for each JSON artifact presence is checked first,
/// then the size bound, and only then the content.
pub open spec fn open_error(
    config: Option<FileBlobView>,
    usage: Option<FileBlobView>,
    jurisdictions: Option<FileBlobView>,
    ordinances: Option<FileBlobView>,
    log: Option<FileBlobView>,
    have_sources: bool,
) -> Option<IngestError> {
    if config is None {
        Some(IngestError::MissingArtifact(ArtifactKind::Config))
    } else if config->0.size > MAX_JSON_FILE_SIZE {
        Some(IngestError::OversizedArtifact(ArtifactKind::Config))
    } else if match json_parse(config->0.text) {
        None => true,
        Some(doc) => config_decode_fails(doc),
    } {
        Some(IngestError::MalformedArtifact(ArtifactKind::Config))
    } else if usage is None {
        Some(IngestError::MissingArtifact(ArtifactKind::Usage))
    } else if usage->0.size > MAX_JSON_FILE_SIZE {
        Some(IngestError::OversizedArtifact(ArtifactKind::Usage))
    } else if match json_parse(usage->0.text) {
        None => true,
        Some(doc) => usage_of(doc) is None,
    } {
        Some(IngestError::MalformedArtifact(ArtifactKind::Usage))
    } else if jurisdictions is None {
        Some(IngestError::MissingArtifact(ArtifactKind::Jurisdictions))
    } else if jurisdictions->0.size > MAX_JSON_FILE_SIZE {
        Some(IngestError::OversizedArtifact(ArtifactKind::Jurisdictions))
    } else if match json_parse(jurisdictions->0.text) {
        None => true,
        Some(doc) => collection_of(doc) is None,
    } {
        Some(IngestError::MalformedArtifact(ArtifactKind::Jurisdictions))
    } else if ordinances is None {
        Some(IngestError::MissingArtifact(ArtifactKind::Ordinances))
    } else if ordinance_set_of(ordinances->0.text) is None {
        Some(IngestError::MalformedArtifact(ArtifactKind::Ordinances))
    } else if log is None {
        Some(IngestError::MissingArtifact(ArtifactKind::RuntimeLog))
    } else if !have_sources {
        Some(IngestError::MissingArtifact(ArtifactKind::SourceDir))
    } else {
        None
    }
}

/// The `open_error` of a run input.
pub open spec fn input_error(input: RunInput) -> Option<IngestError> {
    open_error(
        view_blob(input.config),
        view_blob(input.usage),
        view_blob(input.jurisdictions),
        view_blob(input.ordinances),
        view_blob(input.log),
        input.source_files is Some,
    )
}

/// The view of an optional artifact file.
pub open spec fn view_blob(b: Option<FileBlob>) -> Option<FileBlobView> {
    match b {
        Some(f) => Some(f@),
        None => None,
    }
}

/// How a returned artifact set relates to the input it was decoded from.
pub open spec fn decoded_from(set: ArtifactSet, input: RunInput) -> bool {
    &&& input.config matches Some(cf) && json_parse(cf@.text) matches Some(cdoc)
        && config_decodes_to(cdoc, set.config)
    &&& input.usage matches Some(uf) && json_parse(uf@.text) matches Some(udoc) && usage_of(udoc)
        == Some((set.usage.total_time_seconds@, set.usage.items.deep_view()))
    &&& input.jurisdictions matches Some(jf) && json_parse(jf@.text) matches Some(jdoc)
        && collection_of(jdoc) == Some(set.jurisdictions.jurisdictions.deep_view())
    &&& input.ordinances matches Some(of) && ordinance_set_of(of@.text) == Some(
        (set.ordinances.records.deep_view(), set.ordinances.skipped as int),
    )
    &&& input.log matches Some(lf) && set.logs.records.deep_view() == retained_records(lf@.text)
    &&& input.source_files matches Some(sf) && set.source_files == sf
}

/// The fields of the configuration object a text parses to.
pub open spec fn spec_config_fields(t: Seq<char>) -> Seq<(String, JsonValue)> {
    match json_parse(t) {
        Some(doc) => match doc {
            JsonValue::Obj(fields) => fields@,
            _ => Seq::empty(),
        },
        None => Seq::empty(),
    }
}

/// The model name a configuration text declares.
pub open spec fn spec_model(t: Seq<char>) -> Seq<char> {
    match str_field(spec_config_fields(t), "model"@) {
        Some(m) => m,
        None => Seq::empty(),
    }
}

/// The rate limit a configuration text declares.
pub open spec fn spec_rate(t: Seq<char>) -> u64 {
    match num_field(spec_config_fields(t), "llm_service_rate_limit"@) {
        Some(x) => dec_val(x) as u64,
        None => 0,
    }
}

/// The forward-compatible remainder of a configuration text: its fields
/// minus the two interpreted ones, in order.
pub open spec fn spec_extra(t: Seq<char>) -> Seq<(String, JsonValue)> {
    remove_key(remove_key(spec_config_fields(t), "model"@), "llm_service_rate_limit"@)
}

/// The jurisdictions a manifest text declares.
pub open spec fn spec_jurisdictions(t: Seq<char>) -> Seq<JurisdictionView> {
    match json_parse(t) {
        Some(doc) => match collection_of(doc) {
            Some(jurs) => jurs,
            None => Seq::empty(),
        },
        None => Seq::empty(),
    }
}

/// The run-level elapsed time a usage text declares, as number text.
pub open spec fn spec_usage_total(t: Seq<char>) -> Seq<char> {
    match json_parse(t) {
        Some(doc) => match usage_of(doc) {
            Some(u) => u.0,
            None => Seq::empty(),
        },
        None => Seq::empty(),
    }
}

/// The per-jurisdiction usage entries a usage text declares.
pub open spec fn spec_usage_items(t: Seq<char>) -> Seq<UsagePerItemView> {
    match json_parse(t) {
        Some(doc) => match usage_of(doc) {
            Some(u) => u.1,
            None => Seq::empty(),
        },
        None => Seq::empty(),
    }
}

/// The rows an ordinance CSV text decodes to.
pub open spec fn spec_ordinance_records(t: Seq<char>) -> Seq<OrdinanceRecordView> {
    match ordinance_set_of(t) {
        Some(p) => p.0,
        None => Seq::empty(),
    }
}

/// The skipped-row count of an ordinance CSV text.
pub open spec fn spec_ordinance_skipped(t: Seq<char>) -> int {
    match ordinance_set_of(t) {
        Some(p) => p.1,
        None => 0,
    }
}

impl ArtifactSet {
    /// Decode all artifacts of a run input.
    ///
    /// Nothing is read twice and no storage is touched; the result is an
    /// immutable, fully decoded set, or the first error in artifact
    /// order.
    pub fn open(input: RunInput) -> (r: Result<ArtifactSet, IngestError>)
        ensures
            match r {
                Ok(set) => input_error(input) is None && decoded_from(set, input),
                Err(e) => input_error(input) == Some(e),
            },
    {
        let RunInput { config, usage, jurisdictions, ordinances, log, source_files } = input;
        let config = match config {
            Some(f) => f,
            None => {
                return Err(IngestError::MissingArtifact(ArtifactKind::Config));
            },
        };
        if config.size > MAX_JSON_FILE_SIZE {
            return Err(IngestError::OversizedArtifact(ArtifactKind::Config));
        }
        let config_rec = match ConfigRecord::from_json(config.text.as_str()) {
            Ok(c) => c,
            Err(_) => {
                return Err(IngestError::MalformedArtifact(ArtifactKind::Config));
            },
        };
        let usage = match usage {
            Some(f) => f,
            None => {
                return Err(IngestError::MissingArtifact(ArtifactKind::Usage));
            },
        };
        if usage.size > MAX_JSON_FILE_SIZE {
            return Err(IngestError::OversizedArtifact(ArtifactKind::Usage));
        }
        let usage_rec = match UsageRecord::from_json(usage.text.as_str()) {
            Ok(u) => u,
            Err(_) => {
                return Err(IngestError::MalformedArtifact(ArtifactKind::Usage));
            },
        };
        let jurisdictions = match jurisdictions {
            Some(f) => f,
            None => {
                return Err(IngestError::MissingArtifact(ArtifactKind::Jurisdictions));
            },
        };
        if jurisdictions.size > MAX_JSON_FILE_SIZE {
            return Err(IngestError::OversizedArtifact(ArtifactKind::Jurisdictions));
        }
        let collection = match Collection::from_json(jurisdictions.text.as_str()) {
            Ok(c) => c,
            Err(_) => {
                return Err(IngestError::MalformedArtifact(ArtifactKind::Jurisdictions));
            },
        };
        let ordinances = match ordinances {
            Some(f) => f,
            None => {
                return Err(IngestError::MissingArtifact(ArtifactKind::Ordinances));
            },
        };
        let ordinance_set = match OrdinanceSet::parse(ordinances.text.as_str()) {
            Ok(s) => s,
            Err(_) => {
                return Err(IngestError::MalformedArtifact(ArtifactKind::Ordinances));
            },
        };
        let log = match log {
            Some(f) => f,
            None => {
                return Err(IngestError::MissingArtifact(ArtifactKind::RuntimeLog));
            },
        };
        let logs = RuntimeLogs::parse(log.text.as_str());
        let source_files = match source_files {
            Some(sf) => sf,
            None => {
                return Err(IngestError::MissingArtifact(ArtifactKind::SourceDir));
            },
        };
        Ok(
            ArtifactSet {
                config: config_rec,
                usage: usage_rec,
                jurisdictions: collection,
                ordinances: ordinance_set,
                logs,
                source_files,
            },
        )
    }
}

} // verus!
