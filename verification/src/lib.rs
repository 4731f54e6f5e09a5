//! Ingestion and provenance tracking for ordinance scraper runs.
//!
//! A scraper run produces a directory of JSON, CSV and free-text log
//! artifacts.  This crate validates and decodes those artifacts, verifies
//! the integrity of referenced source documents against the manifest's
//! declared checksums, and commits one run's rows into a relational store
//! under a single provenance record, all or nothing.

pub mod artifact;
pub mod checksum;
pub mod config;
pub mod error;
pub mod json;
pub mod jurisdiction;
pub mod log;
pub mod ordinance;
pub mod store;
pub mod text;
pub mod usage;

use vstd::prelude::*;

use crate::artifact::{
    input_error, spec_extra, spec_jurisdictions, spec_model, spec_ordinance_records, spec_rate,
    spec_usage_items, spec_usage_total, ArtifactSet, RunInput,
};
use crate::checksum::{
    checksum_of, checksum_string, confirmed_from, manifest_from, mismatched_from, missing_from,
    unknown_from, verify, VerificationReport,
};
use crate::error::{EntityFamily, IngestError};
use crate::log::retained_records;
use crate::store::{capacity_ok, committed, Store};

verus! {

/// Upper bound, in bytes, on the size of any JSON artifact read into
/// memory.  Larger files are rejected before any parse attempt.
pub const MAX_JSON_FILE_SIZE: u64 = 5242880;

/// The content-hash of one run: the checksum of its five artifact texts,
/// in artifact order.
pub open spec fn run_hash_of(
    c: Seq<char>,
    u: Seq<char>,
    j: Seq<char>,
    o: Seq<char>,
    l: Seq<char>,
) -> Seq<char> {
    checksum_of(
        vstd::utf8::encode_utf8(c) + vstd::utf8::encode_utf8(u) + vstd::utf8::encode_utf8(j)
            + vstd::utf8::encode_utf8(o) + vstd::utf8::encode_utf8(l),
    )
}

/// Ingest one scraper run: open and decode its artifacts, verify its
/// source files against the manifest, and commit everything under one new
/// provenance record — or change nothing at all.
///
/// Every validation and decoding failure is returned before the store is
/// touched; a write-phase fault rolls the whole transaction back.  On
/// success the new provenance id and the checksum verifier's findings are
/// returned.
pub fn ingest(
    store: &mut Store,
    input: RunInput,
    username: String,
    comment: String,
    fault: Option<EntityFamily>,
) -> (r: Result<(u64, VerificationReport), IngestError>)
    requires
        old(store).wf(),
    ensures
        final(store).wf(),
        r is Err ==> *final(store) == *old(store),
        match input_error(input) {
            Some(e) => r matches Err(e2) && e2 == e,
            None => {
                let ctext = input.config->0@.text;
                let utext = input.usage->0@.text;
                let jtext = input.jurisdictions->0@.text;
                let otext = input.ordinances->0@.text;
                let ltext = input.log->0@.text;
                let jurs = spec_jurisdictions(jtext);
                let items = spec_usage_items(utext);
                let ords = spec_ordinance_records(otext);
                let logs = retained_records(ltext);
                match fault {
                    Some(f) => r matches Err(e2) && e2 == IngestError::TransactionAborted(f),
                    None => if capacity_ok(
                        old(store).next_id,
                        jurs,
                        ords.len() as int,
                        items,
                        logs.len() as int,
                    ) {
                        &&& r matches Ok(pair)
                        &&& r->Ok_0.0 == old(store).next_id
                        &&& committed(
                            *old(store),
                            *final(store),
                            r->Ok_0.0,
                            run_hash_of(ctext, utext, jtext, otext, ltext),
                            username@,
                            comment@,
                            spec_model(ctext),
                            spec_rate(ctext),
                            spec_extra(ctext),
                            jurs,
                            ords,
                            spec_usage_total(utext),
                            items,
                            logs,
                        )
                        &&& r->Ok_0.1.confirmed.deep_view() == confirmed_from(
                            manifest_from(jurs, 0),
                            input.source_files->0.deep_view(),
                            0,
                        )
                        &&& r->Ok_0.1.mismatched.deep_view() == mismatched_from(
                            manifest_from(jurs, 0),
                            input.source_files->0.deep_view(),
                            0,
                        )
                        &&& r->Ok_0.1.unknown.deep_view() == unknown_from(
                            manifest_from(jurs, 0),
                            input.source_files->0.deep_view(),
                            0,
                        )
                        &&& r->Ok_0.1.missing.deep_view() == missing_from(
                            manifest_from(jurs, 0),
                            input.source_files->0.deep_view(),
                            0,
                        )
                    } else {
                        r matches Err(e2) && e2 == IngestError::DatabaseError
                    },
                }
            },
        },
{
    let ghost ctext = match &input.config {
        Some(f) => f@.text,
        None => Seq::<char>::empty(),
    };
    let ghost utext = match &input.usage {
        Some(f) => f@.text,
        None => Seq::<char>::empty(),
    };
    let ghost jtext = match &input.jurisdictions {
        Some(f) => f@.text,
        None => Seq::<char>::empty(),
    };
    let ghost otext = match &input.ordinances {
        Some(f) => f@.text,
        None => Seq::<char>::empty(),
    };
    let ghost ltext = match &input.log {
        Some(f) => f@.text,
        None => Seq::<char>::empty(),
    };
    // Compute the run's content-hash before decoding consumes the texts.
    let have_all = input.config.is_some() && input.usage.is_some() && input.jurisdictions.is_some()
        && input.ordinances.is_some() && input.log.is_some();
    let mut run_hash: String = String::new();
    if have_all {
        let mut bytes = input.config.as_ref().unwrap().text.as_str().as_bytes_vec();
        let mut ub = input.usage.as_ref().unwrap().text.as_str().as_bytes_vec();
        let mut jb = input.jurisdictions.as_ref().unwrap().text.as_str().as_bytes_vec();
        let mut ob = input.ordinances.as_ref().unwrap().text.as_str().as_bytes_vec();
        let mut lb = input.log.as_ref().unwrap().text.as_str().as_bytes_vec();
        bytes.append(&mut ub);
        bytes.append(&mut jb);
        bytes.append(&mut ob);
        bytes.append(&mut lb);
        proof {
            assert(bytes@ =~= vstd::utf8::encode_utf8(ctext) + vstd::utf8::encode_utf8(utext)
                + vstd::utf8::encode_utf8(jtext) + vstd::utf8::encode_utf8(otext)
                + vstd::utf8::encode_utf8(ltext));
        }
        run_hash = checksum_string(&bytes);
    }
    let set = match ArtifactSet::open(input) {
        Ok(s) => s,
        Err(e) => {
            return Err(e);
        },
    };
    proof {
        assert(have_all);
        assert(run_hash@ == run_hash_of(ctext, utext, jtext, otext, ltext));
        assert(set.jurisdictions.jurisdictions.deep_view() == spec_jurisdictions(jtext));
        assert(set.usage.items.deep_view() == spec_usage_items(utext));
        assert(set.usage.total_time_seconds@ == spec_usage_total(utext));
        assert(set.ordinances.records.deep_view() == spec_ordinance_records(otext));
        assert(set.logs.records.deep_view() == retained_records(ltext));
        assert(set.config.model@ == spec_model(ctext));
        assert(set.config.llm_service_rate_limit == spec_rate(ctext));
        assert(set.config.extra@ == spec_extra(ctext));
    }
    let manifest = set.jurisdictions.manifest();
    let report = verify(&manifest, &set.source_files);
    match store.commit(username, comment, run_hash, set, fault) {
        Ok(id) => Ok((id, report)),
        Err(e) => Err(e),
    }
}

} // verus!
