//! The jurisdiction manifest artifact (`jurisdictions.json`).
//!
//! A collection of jurisdiction objects, each optionally referencing the
//! archived source documents the scraper collected for it.  A document's
//! declared checksum is cross-checked against the file on disk by the
//! checksum verifier; a mismatch there is a verification finding, not a
//! structural violation of this artifact.

use vstd::prelude::*;

use crate::error::{ArtifactKind, IngestError};
use crate::json::{
    bool_field, get_bool, get_num_text, get_opt_str, get_str, get_u64, json_parse, num_field,
    obj_find, obj_get, opt_str_field, str_field, u64_field, JsonValue,
};

verus! {

/// One archived source document referenced by a jurisdiction.
#[derive(Debug)]
pub struct Document {
    /// Originating source label.
    pub source: String,
    /// Ordinance year.
    pub ord_year: u16,
    /// File name under the run's source-file directory.
    pub filename: String,
    /// Number of pages.
    pub num_pages: u16,
    /// Declared content checksum, `"sha256:<hex>"`.
    pub checksum: String,
    /// Access time, if recorded; kept verbatim.
    pub access_time: Option<String>,
}

/// The mathematical shape of a document reference.
pub ghost struct DocumentView {
    pub source: Seq<char>,
    pub ord_year: u16,
    pub filename: Seq<char>,
    pub num_pages: u16,
    pub checksum: Seq<char>,
    pub access_time: Option<Seq<char>>,
}

impl View for Document {
    type V = DocumentView;

    open spec fn view(&self) -> DocumentView {
        DocumentView {
            source: self.source@,
            ord_year: self.ord_year,
            filename: self.filename@,
            num_pages: self.num_pages,
            checksum: self.checksum@,
            access_time: match self.access_time {
                Some(t) => Some(t@),
                None => None,
            },
        }
    }
}

impl DeepView for Document {
    type V = DocumentView;

    open spec fn deep_view(&self) -> DocumentView {
        self.view()
    }
}

/// One scraped jurisdiction.
#[derive(Debug)]
pub struct Jurisdiction {
    pub full_name: String,
    pub county: String,
    pub state: String,
    pub subdivision: Option<String>,
    pub jurisdiction_type: Option<String>,
    pub fips: u32,
    /// Whether the scraper found an ordinance for this jurisdiction.
    pub found: bool,
    /// Elapsed processing time in seconds, as the JSON number's text.
    pub total_time: String,
    /// Referenced documents; empty when the manifest lists none.
    pub documents: Vec<Document>,
}

/// The mathematical shape of a jurisdiction.
pub ghost struct JurisdictionView {
    pub full_name: Seq<char>,
    pub county: Seq<char>,
    pub state: Seq<char>,
    pub subdivision: Option<Seq<char>>,
    pub jurisdiction_type: Option<Seq<char>>,
    pub fips: u32,
    pub found: bool,
    pub total_time: Seq<char>,
    pub documents: Seq<DocumentView>,
}

impl View for Jurisdiction {
    type V = JurisdictionView;

    open spec fn view(&self) -> JurisdictionView {
        JurisdictionView {
            full_name: self.full_name@,
            county: self.county@,
            state: self.state@,
            subdivision: match self.subdivision {
                Some(t) => Some(t@),
                None => None,
            },
            jurisdiction_type: match self.jurisdiction_type {
                Some(t) => Some(t@),
                None => None,
            },
            fips: self.fips,
            found: self.found,
            total_time: self.total_time@,
            documents: self.documents.deep_view(),
        }
    }
}

impl DeepView for Jurisdiction {
    type V = JurisdictionView;

    open spec fn deep_view(&self) -> JurisdictionView {
        self.view()
    }
}

/// The decoded jurisdiction manifest.
#[derive(Debug)]
pub struct Collection {
    pub jurisdictions: Vec<Jurisdiction>,
}

/// The document a JSON value denotes, if it is well-formed.
///
/// `source`, `ord_year`, `ord_filename`, `num_pages` and `checksum` are
/// required; `access_time` is optional.  Unrecognised fields are ignored.
pub open spec fn document_of(v: JsonValue) -> Option<DocumentView> {
    match v {
        JsonValue::Obj(fields) => {
            let f = fields@;
            if str_field(f, "source"@) is Some && u64_field(f, "ord_year"@) is Some && u64_field(
                f,
                "ord_year"@,
            )->0 <= u16::MAX && str_field(f, "ord_filename"@) is Some && u64_field(
                f,
                "num_pages"@,
            ) is Some && u64_field(f, "num_pages"@)->0 <= u16::MAX && str_field(
                f,
                "checksum"@,
            ) is Some && opt_str_field(f, "access_time"@) is Some {
                Some(
                    DocumentView {
                        source: str_field(f, "source"@)->0,
                        ord_year: u64_field(f, "ord_year"@)->0 as u16,
                        filename: str_field(f, "ord_filename"@)->0,
                        num_pages: u64_field(f, "num_pages"@)->0 as u16,
                        checksum: str_field(f, "checksum"@)->0,
                        access_time: opt_str_field(f, "access_time"@)->0,
                    },
                )
            } else {
                None
            }
        },
        _ => None,
    }
}

/// The documents an array of JSON values denotes, from index `i` on; `None`
/// as soon as one of them is not a well-formed document.
pub open spec fn documents_from(items: Seq<JsonValue>, i: int) -> Option<Seq<DocumentView>>
    decreases items.len() - i,
{
    if i < 0 || i >= items.len() {
        Some(Seq::empty())
    } else {
        match document_of(items[i]) {
            None => None,
            Some(d) => match documents_from(items, i + 1) {
                None => None,
                Some(rest) => Some(seq![d] + rest),
            },
        }
    }
}

/// The jurisdiction a JSON value denotes, if it is well-formed.
///
/// `full_name`, `county`, `state`, `FIPS`, `found` and `total_time` are
/// required; `subdivision`, `jurisdiction_type` and `documents` are
/// optional.  Unrecognised fields are ignored.
pub open spec fn jurisdiction_of(v: JsonValue) -> Option<JurisdictionView> {
    match v {
        JsonValue::Obj(fields) => {
            let f = fields@;
            let docs = match obj_get(f, "documents"@) {
                None => Some(Seq::<DocumentView>::empty()),
                Some(JsonValue::Null) => Some(Seq::<DocumentView>::empty()),
                Some(JsonValue::Arr(items)) => documents_from(items@, 0),
                Some(_) => None,
            };
            if str_field(f, "full_name"@) is Some && str_field(f, "county"@) is Some && str_field(
                f,
                "state"@,
            ) is Some && opt_str_field(f, "subdivision"@) is Some && opt_str_field(
                f,
                "jurisdiction_type"@,
            ) is Some && u64_field(f, "FIPS"@) is Some && u64_field(f, "FIPS"@)->0 <= u32::MAX
                && bool_field(f, "found"@) is Some && num_field(f, "total_time"@) is Some
                && docs is Some {
                Some(
                    JurisdictionView {
                        full_name: str_field(f, "full_name"@)->0,
                        county: str_field(f, "county"@)->0,
                        state: str_field(f, "state"@)->0,
                        subdivision: opt_str_field(f, "subdivision"@)->0,
                        jurisdiction_type: opt_str_field(f, "jurisdiction_type"@)->0,
                        fips: u64_field(f, "FIPS"@)->0 as u32,
                        found: bool_field(f, "found"@)->0,
                        total_time: num_field(f, "total_time"@)->0,
                        documents: docs->0,
                    },
                )
            } else {
                None
            }
        },
        _ => None,
    }
}

/// The jurisdictions an array of JSON values denotes, from index `i` on.
pub open spec fn jurisdictions_from(items: Seq<JsonValue>, i: int) -> Option<Seq<JurisdictionView>>
    decreases items.len() - i,
{
    if i < 0 || i >= items.len() {
        Some(Seq::empty())
    } else {
        match jurisdiction_of(items[i]) {
            None => None,
            Some(j) => match jurisdictions_from(items, i + 1) {
                None => None,
                Some(rest) => Some(seq![j] + rest),
            },
        }
    }
}

/// The manifest a JSON document denotes: an object whose `jurisdictions`
/// field is an array of well-formed jurisdictions.
pub open spec fn collection_of(doc: JsonValue) -> Option<Seq<JurisdictionView>> {
    match doc {
        JsonValue::Obj(fields) => match obj_get(fields@, "jurisdictions"@) {
            Some(JsonValue::Arr(items)) => jurisdictions_from(items@, 0),
            _ => None,
        },
        _ => None,
    }
}

impl Document {
    /// Decode one document reference.
    pub fn from_value(v: &JsonValue) -> (r: Result<Document, IngestError>)
        ensures
            match r {
                Ok(d) => document_of(*v) == Some(d@),
                Err(e) => document_of(*v) is None && e == IngestError::MalformedArtifact(
                    ArtifactKind::Jurisdictions,
                ),
            },
    {
        let malformed = IngestError::MalformedArtifact(ArtifactKind::Jurisdictions);
        match v {
            JsonValue::Obj(fields) => {
                let source = match get_str(fields, &String::from_str("source")) {
                    Some(s) => s,
                    None => {
                        return Err(malformed);
                    },
                };
                let ord_year = match get_u64(fields, &String::from_str("ord_year")) {
                    Some(y) if y <= 0xffff => y as u16,
                    _ => {
                        return Err(malformed);
                    },
                };
                let filename = match get_str(fields, &String::from_str("ord_filename")) {
                    Some(s) => s,
                    None => {
                        return Err(malformed);
                    },
                };
                let num_pages = match get_u64(fields, &String::from_str("num_pages")) {
                    Some(p) if p <= 0xffff => p as u16,
                    _ => {
                        return Err(malformed);
                    },
                };
                let checksum = match get_str(fields, &String::from_str("checksum")) {
                    Some(s) => s,
                    None => {
                        return Err(malformed);
                    },
                };
                let access_time = match get_opt_str(fields, &String::from_str("access_time")) {
                    Ok(t) => t,
                    Err(_) => {
                        return Err(malformed);
                    },
                };
                Ok(Document { source, ord_year, filename, num_pages, checksum, access_time })
            },
            _ => Err(malformed),
        }
    }
}

impl Jurisdiction {
    /// Decode one jurisdiction, including its document references.
    #[verifier::loop_isolation(false)]
    pub fn from_value(v: &JsonValue) -> (r: Result<Jurisdiction, IngestError>)
        ensures
            match r {
                Ok(j) => jurisdiction_of(*v) == Some(j@),
                Err(e) => jurisdiction_of(*v) is None && e == IngestError::MalformedArtifact(
                    ArtifactKind::Jurisdictions,
                ),
            },
    {
        let malformed = IngestError::MalformedArtifact(ArtifactKind::Jurisdictions);
        match v {
            JsonValue::Obj(fields) => {
                let mut documents: Vec<Document> = Vec::new();
                match obj_find(fields, &String::from_str("documents")) {
                    None => {},
                    Some(di) => {
                        let dpair = &fields[di];
                        match &dpair.1 {
                            JsonValue::Null => {},
                            JsonValue::Arr(items) => {
                                let n = items.len();
                                let mut i: usize = 0;
                                while i < n
                                    invariant
                                        n == items@.len(),
                                        i <= n,
                                        ({
                                            match documents_from(items@, i as int) {
                                                Some(rest) => documents_from(items@, 0) == Some(
                                                    documents.deep_view() + rest,
                                                ),
                                                None => documents_from(items@, 0) is None,
                                            }
                                        }),
                                    decreases n - i,
                                {
                                    let ghost acc0 = documents.deep_view();
                                    match Document::from_value(&items[i]) {
                                        Ok(d) => {
                                            documents.push(d);
                                            proof {
                                                assert(documents.deep_view() =~= acc0.push(d@));
                                                if documents_from(items@, i + 1) is Some {
                                                    let rest = documents_from(items@, i + 1)->0;
                                                    assert(acc0 + (seq![d@] + rest) =~= acc0.push(d@)
                                                        + rest);
                                                }
                                            }
                                        },
                                        Err(_) => {
                                            proof {
                                                assert(documents_from(items@, i as int) is None);
                                                assert(documents_from(items@, 0) is None);
                                                assert(dpair.1 == JsonValue::Arr(*items));
                                                assert(obj_get(fields@, "documents"@) == Some(
                                                    JsonValue::Arr(*items),
                                                ));
                                                assert(jurisdiction_of(*v) is None);
                                            }
                                            return Err(malformed);
                                        },
                                    }
                                    i = i + 1;
                                }
                            },
                            _ => {
                                return Err(malformed);
                            },
                        }
                    },
                }
                proof {
                    if documents_from_of_jur(*v) is Some {
                        assert(documents.deep_view() + Seq::<DocumentView>::empty()
                            =~= documents.deep_view());
                    }
                }
                let full_name = match get_str(fields, &String::from_str("full_name")) {
                    Some(s) => s,
                    None => {
                        return Err(malformed);
                    },
                };
                let county = match get_str(fields, &String::from_str("county")) {
                    Some(s) => s,
                    None => {
                        return Err(malformed);
                    },
                };
                let state = match get_str(fields, &String::from_str("state")) {
                    Some(s) => s,
                    None => {
                        return Err(malformed);
                    },
                };
                let subdivision = match get_opt_str(fields, &String::from_str("subdivision")) {
                    Ok(t) => t,
                    Err(_) => {
                        return Err(malformed);
                    },
                };
                let jurisdiction_type = match get_opt_str(
                    fields,
                    &String::from_str("jurisdiction_type"),
                ) {
                    Ok(t) => t,
                    Err(_) => {
                        return Err(malformed);
                    },
                };
                let fips = match get_u64(fields, &String::from_str("FIPS")) {
                    Some(x) if x <= 0xffff_ffff => x as u32,
                    _ => {
                        return Err(malformed);
                    },
                };
                let found = match get_bool(fields, &String::from_str("found")) {
                    Some(b) => b,
                    None => {
                        return Err(malformed);
                    },
                };
                let total_time = match get_num_text(fields, &String::from_str("total_time")) {
                    Some(t) => t,
                    None => {
                        return Err(malformed);
                    },
                };
                Ok(
                    Jurisdiction {
                        full_name,
                        county,
                        state,
                        subdivision,
                        jurisdiction_type,
                        fips,
                        found,
                        total_time,
                        documents,
                    },
                )
            },
            _ => Err(malformed),
        }
    }
}

/// The `documents` part of a jurisdiction object, as `jurisdiction_of`
/// evaluates it.
pub open spec fn documents_from_of_jur(v: JsonValue) -> Option<Seq<DocumentView>> {
    match v {
        JsonValue::Obj(fields) => match obj_get(fields@, "documents"@) {
            None => Some(Seq::<DocumentView>::empty()),
            Some(JsonValue::Null) => Some(Seq::<DocumentView>::empty()),
            Some(JsonValue::Arr(items)) => documents_from(items@, 0),
            Some(_) => None,
        },
        _ => Some(Seq::<DocumentView>::empty()),
    }
}

impl Collection {
    /// Decode the jurisdiction manifest from an already-parsed document.
    #[verifier::loop_isolation(false)]
    pub fn from_value(doc: &JsonValue) -> (r: Result<Collection, IngestError>)
        ensures
            match r {
                Ok(c) => collection_of(*doc) == Some(c.jurisdictions.deep_view()),
                Err(e) => collection_of(*doc) is None && e == IngestError::MalformedArtifact(
                    ArtifactKind::Jurisdictions,
                ),
            },
    {
        let malformed = IngestError::MalformedArtifact(ArtifactKind::Jurisdictions);
        match doc {
            JsonValue::Obj(fields) => {
                match obj_find(fields, &String::from_str("jurisdictions")) {
                    Some(ji) => {
                        let jpair = &fields[ji];
                        match &jpair.1 {
                            JsonValue::Arr(items) => {
                                let n = items.len();
                                let mut jurisdictions: Vec<Jurisdiction> = Vec::new();
                                let mut i: usize = 0;
                                while i < n
                                    invariant
                                        n == items@.len(),
                                        i <= n,
                                        ({
                                            match jurisdictions_from(items@, i as int) {
                                                Some(rest) => jurisdictions_from(items@, 0) == Some(
                                                    jurisdictions.deep_view() + rest,
                                                ),
                                                None => jurisdictions_from(items@, 0) is None,
                                            }
                                        }),
                                    decreases n - i,
                                {
                                    let ghost acc0 = jurisdictions.deep_view();
                                    match Jurisdiction::from_value(&items[i]) {
                                        Ok(j) => {
                                            jurisdictions.push(j);
                                            proof {
                                                assert(jurisdictions.deep_view() =~= acc0.push(j@));
                                                if jurisdictions_from(items@, i + 1) is Some {
                                                    let rest = jurisdictions_from(items@, i + 1)->0;
                                                    assert(acc0 + (seq![j@] + rest) =~= acc0.push(j@)
                                                        + rest);
                                                }
                                            }
                                        },
                                        Err(_) => {
                                            proof {
                                                assert(jurisdictions_from(items@, i as int) is None);
                                                assert(jurisdictions_from(items@, 0) is None);
                                                assert(collection_of(*doc) is None);
                                            }
                                            return Err(malformed);
                                        },
                                    }
                                    i = i + 1;
                                }
                                proof {
                                    assert(jurisdictions.deep_view() + Seq::<JurisdictionView>::empty()
                                        =~= jurisdictions.deep_view());
                                }
                                Ok(Collection { jurisdictions })
                            },
                            _ => Err(malformed),
                        }
                    },
                    None => Err(malformed),
                }
            },
            _ => Err(malformed),
        }
    }

    /// Decode the jurisdiction manifest from JSON text.
    pub fn from_json(s: &str) -> (r: Result<Collection, IngestError>)
        ensures
            json_parse(s@) is None ==> r == Result::<Collection, IngestError>::Err(
                IngestError::MalformedArtifact(ArtifactKind::Jurisdictions),
            ),
            json_parse(s@) matches Some(doc) ==> match r {
                Ok(c) => collection_of(doc) == Some(c.jurisdictions.deep_view()),
                Err(e) => collection_of(doc) is None && e == IngestError::MalformedArtifact(
                    ArtifactKind::Jurisdictions,
                ),
            },
    {
        match JsonValue::parse(s) {
            Some(doc) => Collection::from_value(&doc),
            None => Err(IngestError::MalformedArtifact(ArtifactKind::Jurisdictions)),
        }
    }
}

} // verus!
