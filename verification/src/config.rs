//! The run configuration artifact (`config.json` / `meta.json`).
//!
//! The record keeps the two fields the data model interprets — the model
//! name and the LLM service rate limit — and carries every other field
//! verbatim in an ordered key/value bag, for forward compatibility.

use vstd::prelude::*;

use crate::error::{ArtifactKind, IngestError};
use crate::json::{obj_find, obj_get, remove_key, JsonValue, json_parse};
use crate::json::lemma_obj_get_after_remove;
use crate::text::{chars_vec, dec_val, parse_u64, u64_num_text};

verus! {

/// The decoded run configuration.
#[derive(Debug)]
pub struct ConfigRecord {
    /// Name of the model the scraper ran with.
    pub model: String,
    /// Rate limit configured for the LLM service.
    pub llm_service_rate_limit: u64,
    /// All remaining fields, in their original order, uninterpreted.
    pub extra: Vec<(String, JsonValue)>,
}

/// The fields of a configuration object are acceptable: a string `model`
/// and an unsigned integer `llm_service_rate_limit` are present.
pub open spec fn config_ok(fields: Seq<(String, JsonValue)>) -> bool {
    &&& match obj_get(fields, "model"@) {
        Some(JsonValue::Str(_)) => true,
        _ => false,
    }
    &&& match obj_get(fields, "llm_service_rate_limit"@) {
        Some(JsonValue::Num(t)) => u64_num_text(t@),
        _ => false,
    }
}

/// How a decoded [`ConfigRecord`] relates to the fields it came from.
pub open spec fn config_fields_match(fields: Seq<(String, JsonValue)>, c: ConfigRecord) -> bool {
    &&& match obj_get(fields, "model"@) {
        Some(JsonValue::Str(m)) => c.model@ == m@,
        _ => false,
    }
    &&& match obj_get(fields, "llm_service_rate_limit"@) {
        Some(JsonValue::Num(t)) => c.llm_service_rate_limit == dec_val(t@),
        _ => false,
    }
    &&& c.extra@ == remove_key(remove_key(fields, "model"@), "llm_service_rate_limit"@)
}

/// What decoding a configuration document must return: the record when the
/// document is an object with the two required fields, and a
/// `MalformedArtifact` error otherwise.
pub open spec fn config_matches(doc: JsonValue, r: Result<ConfigRecord, IngestError>) -> bool {
    match doc {
        JsonValue::Obj(fields) => if config_ok(fields@) {
            match r {
                Ok(c) => config_fields_match(fields@, c),
                Err(_) => false,
            }
        } else {
            r == Result::<ConfigRecord, IngestError>::Err(
                IngestError::MalformedArtifact(ArtifactKind::Config),
            )
        },
        _ => r == Result::<ConfigRecord, IngestError>::Err(
            IngestError::MalformedArtifact(ArtifactKind::Config),
        ),
    }
}

impl ConfigRecord {
    /// Decode a configuration record from an already-parsed document.
    ///
    /// The `model` and `llm_service_rate_limit` fields are interpreted and
    /// removed; everything else is kept verbatim, in order, in `extra`.
    pub fn from_value(doc: JsonValue) -> (r: Result<ConfigRecord, IngestError>)
        ensures
            config_matches(doc, r),
    {
        let malformed = IngestError::MalformedArtifact(ArtifactKind::Config);
        match doc {
            JsonValue::Obj(mut fields) => {
                let ghost fields0 = fields@;
                let model_key: String = String::from_str("model");
                let rate_key: String = String::from_str("llm_service_rate_limit");
                let model: String;
                match obj_find(&fields, &model_key) {
                    Some(i) => {
                        let pair = fields.remove(i);
                        match pair.1 {
                            JsonValue::Str(m) => {
                                model = m;
                            },
                            _ => {
                                return Err(malformed);
                            },
                        }
                    },
                    None => {
                        return Err(malformed);
                    },
                }
                proof {
                    reveal_strlit("model");
                    reveal_strlit("llm_service_rate_limit");
                    assert("model"@.len() != "llm_service_rate_limit"@.len());
                    assert(fields@ == remove_key(fields0, "model"@));
                    lemma_obj_get_after_remove(fields0, "model"@, "llm_service_rate_limit"@);
                }
                let rate: u64;
                match obj_find(&fields, &rate_key) {
                    Some(i) => {
                        let pair = fields.remove(i);
                        match pair.1 {
                            JsonValue::Num(t) => {
                                let cs = chars_vec(t.as_str());
                                proof {
                                    assert(cs@.subrange(0, cs@.len() as int) =~= t@);
                                }
                                match parse_u64(&cs, 0, cs.len()) {
                                    Some(v) => {
                                        rate = v;
                                    },
                                    None => {
                                        return Err(malformed);
                                    },
                                }
                            },
                            _ => {
                                return Err(malformed);
                            },
                        }
                    },
                    None => {
                        return Err(malformed);
                    },
                }
                Ok(ConfigRecord { model, llm_service_rate_limit: rate, extra: fields })
            },
            _ => Err(malformed),
        }
    }

    /// Decode a configuration record from JSON text.
    ///
    /// Text that is not valid JSON is a `MalformedArtifact`.
    pub fn from_json(s: &str) -> (r: Result<ConfigRecord, IngestError>)
        ensures
            json_parse(s@) is None ==> r == Result::<ConfigRecord, IngestError>::Err(
                IngestError::MalformedArtifact(ArtifactKind::Config),
            ),
            json_parse(s@) matches Some(doc) ==> config_matches(doc, r),
    {
        match JsonValue::parse(s) {
            Some(doc) => ConfigRecord::from_value(doc),
            None => Err(IngestError::MalformedArtifact(ArtifactKind::Config)),
        }
    }
}

} // verus!
