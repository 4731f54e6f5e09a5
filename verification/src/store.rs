//! The provenance store: the write path of the ingestion pipeline.
//!
//! One `commit` call writes one run: the provenance record first, then
//! every derived entity family tagged with the record's id as a mandatory
//! foreign key, as a single transaction.  If any family's writer fails,
//! nothing of the run becomes visible; ids come from one monotonic
//! sequence, so each committed run's id is greater than every id issued
//! before it.
//!
//! The store models the visible state of the relational schema: one
//! vector per table, and the sequence's next value.  Timestamps the
//! engine would assign on insert (`created_at`) are no part of the model.

use vstd::prelude::*;

use crate::artifact::ArtifactSet;
use crate::error::{EntityFamily, IngestError};
use crate::json::JsonValue;
use crate::jurisdiction::{Document, DocumentView, Jurisdiction, JurisdictionView};
use crate::log::{LogRecord, LogRecordView};
use crate::ordinance::{view_opt, OrdinanceRecord, OrdinanceRecordView};
use crate::usage::{UsageEvent, UsageEventView, UsagePerItem, UsagePerItemView};

verus! {

/// The root row of one ingested run; every other row references it.
#[derive(Debug)]
pub struct ProvenanceRecord {
    pub id: u64,
    pub run_hash: String,
    pub username: String,
    pub comment: String,
    pub model: String,
}

/// One jurisdiction row, with the ids of its document rows.
#[derive(Debug)]
pub struct JurisdictionRow {
    pub id: u64,
    pub provenance: u64,
    pub full_name: String,
    pub county: String,
    pub state: String,
    pub subdivision: Option<String>,
    pub jurisdiction_type: Option<String>,
    pub fips: u32,
    pub found: bool,
    pub total_time: String,
    pub document_ids: Vec<u64>,
}

/// One archived document row.
#[derive(Debug)]
pub struct DocumentRow {
    pub id: u64,
    pub provenance: u64,
    pub doc: Document,
}

/// One quantitative ordinance row.
#[derive(Debug)]
pub struct OrdinanceRow {
    pub id: u64,
    pub provenance: u64,
    pub record: OrdinanceRecord,
}

/// The run-level usage row.
#[derive(Debug)]
pub struct UsageRunRow {
    pub id: u64,
    pub provenance: u64,
    pub total_time: String,
}

/// One per-jurisdiction usage row, under its run row.
#[derive(Debug)]
pub struct UsageItemRow {
    pub id: u64,
    pub provenance: u64,
    pub run: u64,
    pub name: String,
    pub total_time: String,
    pub total_requests: u64,
    pub total_prompt_tokens: u64,
    pub total_response_tokens: u64,
}

/// One per-event usage row, under its item row.
#[derive(Debug)]
pub struct UsageEventRow {
    pub id: u64,
    pub provenance: u64,
    pub item: u64,
    pub event: UsageEvent,
}

/// One retained runtime log row.
#[derive(Debug)]
pub struct LogRow {
    pub id: u64,
    pub provenance: u64,
    pub record: LogRecord,
}

/// The run configuration row.
#[derive(Debug)]
pub struct ConfigRow {
    pub id: u64,
    pub provenance: u64,
    pub model: String,
    pub llm_service_rate_limit: u64,
    pub extra: Vec<(String, JsonValue)>,
}

/// The visible state of the relational store.
#[derive(Debug)]
pub struct Store {
    /// The next value of the id sequence.
    pub next_id: u64,
    pub provenance: Vec<ProvenanceRecord>,
    pub jurisdictions: Vec<JurisdictionRow>,
    pub documents: Vec<DocumentRow>,
    pub ordinances: Vec<OrdinanceRow>,
    pub usage_runs: Vec<UsageRunRow>,
    pub usage_items: Vec<UsageItemRow>,
    pub usage_events: Vec<UsageEventRow>,
    pub logs: Vec<LogRow>,
    pub configs: Vec<ConfigRow>,
}

/// Whether a provenance record with this id has been committed.
pub open spec fn has_provenance(ps: Seq<ProvenanceRecord>, id: u64) -> bool {
    exists|i: int| 0 <= i < ps.len() && (#[trigger] ps[i]).id == id
}

impl Store {
    /// The store's invariant: ids are below the sequence's next value,
    /// provenance ids increase in commit order, and no derived row exists
    /// without a committed provenance record.
    pub open spec fn wf(self) -> bool {
        &&& forall|i: int|
            0 <= i < self.provenance@.len() ==> (#[trigger] self.provenance@[i]).id < self.next_id
        &&& forall|i: int, j: int|
            0 <= i < j < self.provenance@.len() ==> self.provenance@[i].id
                < self.provenance@[j].id
        &&& forall|i: int|
            0 <= i < self.jurisdictions@.len() ==> (#[trigger] self.jurisdictions@[i]).id
                < self.next_id && has_provenance(self.provenance@, self.jurisdictions@[i].provenance)
        &&& forall|i: int|
            0 <= i < self.documents@.len() ==> (#[trigger] self.documents@[i]).id < self.next_id
                && has_provenance(self.provenance@, self.documents@[i].provenance)
        &&& forall|i: int|
            0 <= i < self.ordinances@.len() ==> (#[trigger] self.ordinances@[i]).id < self.next_id
                && has_provenance(self.provenance@, self.ordinances@[i].provenance)
        &&& forall|i: int|
            0 <= i < self.usage_runs@.len() ==> (#[trigger] self.usage_runs@[i]).id < self.next_id
                && has_provenance(self.provenance@, self.usage_runs@[i].provenance)
        &&& forall|i: int|
            0 <= i < self.usage_items@.len() ==> (#[trigger] self.usage_items@[i]).id
                < self.next_id && has_provenance(self.provenance@, self.usage_items@[i].provenance)
        &&& forall|i: int|
            0 <= i < self.usage_events@.len() ==> (#[trigger] self.usage_events@[i]).id
                < self.next_id && has_provenance(self.provenance@, self.usage_events@[i].provenance)
        &&& forall|i: int|
            0 <= i < self.logs@.len() ==> (#[trigger] self.logs@[i]).id < self.next_id
                && has_provenance(self.provenance@, self.logs@[i].provenance)
        &&& forall|i: int|
            0 <= i < self.configs@.len() ==> (#[trigger] self.configs@[i]).id < self.next_id
                && has_provenance(self.provenance@, self.configs@[i].provenance)
    }

    /// A fresh, empty store; the id sequence starts at one.
    pub fn new() -> (r: Store)
        ensures
            r.wf(),
            r.next_id == 1,
            r.provenance@.len() == 0,
            r.jurisdictions@.len() == 0,
            r.documents@.len() == 0,
            r.ordinances@.len() == 0,
            r.usage_runs@.len() == 0,
            r.usage_items@.len() == 0,
            r.usage_events@.len() == 0,
            r.logs@.len() == 0,
            r.configs@.len() == 0,
    {
        Store {
            next_id: 1,
            provenance: Vec::new(),
            jurisdictions: Vec::new(),
            documents: Vec::new(),
            ordinances: Vec::new(),
            usage_runs: Vec::new(),
            usage_items: Vec::new(),
            usage_events: Vec::new(),
            logs: Vec::new(),
            configs: Vec::new(),
        }
    }
}

/// How many document rows the jurisdictions before index `i` contribute.
pub open spec fn docs_before(jurs: Seq<JurisdictionView>, i: int) -> int
    decreases i,
{
    if i <= 0 {
        0
    } else {
        docs_before(jurs, i - 1) + jurs[i - 1].documents.len()
    }
}

/// The total number of document rows of a run.
pub open spec fn total_docs(jurs: Seq<JurisdictionView>) -> int {
    docs_before(jurs, jurs.len() as int)
}

/// How many event rows the items before index `i` contribute.
pub open spec fn events_before(items: Seq<UsagePerItemView>, i: int) -> int
    decreases i,
{
    if i <= 0 {
        0
    } else {
        events_before(items, i - 1) + items[i - 1].events.len()
    }
}

/// The total number of event rows of a run.
pub open spec fn total_events(items: Seq<UsagePerItemView>) -> int {
    events_before(items, items.len() as int)
}

pub proof fn lemma_docs_before_nonneg(jurs: Seq<JurisdictionView>, i: int)
    ensures
        docs_before(jurs, i) >= 0,
    decreases i,
{
    if i > 0 {
        lemma_docs_before_nonneg(jurs, i - 1);
    }
}

pub proof fn lemma_docs_before_mono(jurs: Seq<JurisdictionView>, i: int, j: int)
    requires
        0 <= i <= j,
    ensures
        0 <= docs_before(jurs, i) <= docs_before(jurs, j),
    decreases j - i,
{
    lemma_docs_before_nonneg(jurs, i);
    if i < j {
        lemma_docs_before_mono(jurs, i, j - 1);
    }
}

/// How one jurisdiction row relates to the decoded jurisdiction it came
/// from: the given row id, the provenance foreign key, every field, and
/// document ids that run from `doc_base` on.
pub open spec fn jur_row_matches(
    row: JurisdictionRow,
    j: JurisdictionView,
    prov: u64,
    rid: int,
    doc_base: int,
) -> bool {
    &&& row.id == rid
    &&& row.provenance == prov
    &&& row.full_name@ == j.full_name
    &&& row.county@ == j.county
    &&& row.state@ == j.state
    &&& view_opt(row.subdivision) == j.subdivision
    &&& view_opt(row.jurisdiction_type) == j.jurisdiction_type
    &&& row.fips == j.fips
    &&& row.found == j.found
    &&& row.total_time@ == j.total_time
    &&& row.document_ids@.len() == j.documents.len()
    &&& forall|k: int| 0 <= k < j.documents.len() ==> row.document_ids@[k] == doc_base + k
}

/// How one document row relates to its decoded document.
pub open spec fn doc_row_matches(row: DocumentRow, d: DocumentView, prov: u64, rid: int) -> bool {
    &&& row.id == rid
    &&& row.provenance == prov
    &&& row.doc@ == d
}

/// How one ordinance row relates to its decoded record.
pub open spec fn ord_row_matches(
    row: OrdinanceRow,
    rec: OrdinanceRecordView,
    prov: u64,
    rid: int,
) -> bool {
    &&& row.id == rid
    &&& row.provenance == prov
    &&& row.record@ == rec
}

/// How one usage item row relates to its decoded entry.
pub open spec fn item_row_matches(
    row: UsageItemRow,
    it: UsagePerItemView,
    prov: u64,
    run: u64,
    rid: int,
) -> bool {
    &&& row.id == rid
    &&& row.provenance == prov
    &&& row.run == run
    &&& row.name@ == it.name
    &&& row.total_time@ == it.total_time
    &&& row.total_requests == it.total_requests
    &&& row.total_prompt_tokens == it.total_prompt_tokens
    &&& row.total_response_tokens == it.total_response_tokens
}

/// How one usage event row relates to its decoded event.
pub open spec fn event_row_matches(
    row: UsageEventRow,
    e: UsageEventView,
    prov: u64,
    item: int,
    rid: int,
) -> bool {
    &&& row.id == rid
    &&& row.provenance == prov
    &&& row.item == item
    &&& row.event@ == e
}

/// How one log row relates to its retained record.
pub open spec fn log_row_matches(row: LogRow, rec: LogRecordView, prov: u64, rid: int) -> bool {
    &&& row.id == rid
    &&& row.provenance == prov
    &&& row.record@ == rec
}

/// Turn the decoded jurisdictions into jurisdiction and document rows.
///
/// Jurisdiction row `i` gets id `jur_base + i`; the document rows of all
/// jurisdictions follow each other from `doc_base` on, in order, and each
/// jurisdiction row lists its own document rows' ids.
#[verifier::loop_isolation(false)]
fn jurisdiction_rows(jvec: Vec<Jurisdiction>, prov: u64, jur_base: u64, doc_base: u64) -> (r: (
    Vec<JurisdictionRow>,
    Vec<DocumentRow>,
))
    requires
        jur_base + jvec.deep_view().len() <= u64::MAX,
        doc_base + total_docs(jvec.deep_view()) <= u64::MAX,
    ensures
        ({
            let jurs = jvec.deep_view();
            &&& r.0@.len() == jurs.len()
            &&& forall|i: int|
                0 <= i < jurs.len() ==> jur_row_matches(
                    #[trigger] r.0@[i],
                    jurs[i],
                    prov,
                    jur_base + i,
                    doc_base + docs_before(jurs, i),
                )
            &&& r.1@.len() == total_docs(jurs)
            &&& forall|i: int, k: int|
                0 <= i < jurs.len() && 0 <= k < jurs[i].documents.len() ==> doc_row_matches(
                    #[trigger] r.1@[docs_before(jurs, i) + k],
                    jurs[i].documents[k],
                    prov,
                    doc_base + docs_before(jurs, i) + k,
                )
            &&& forall|d: int|
                0 <= d < r.1@.len() ==> (#[trigger] r.1@[d]).id == doc_base + d
                    && r.1@[d].provenance == prov
        }),
{
    let ghost jurs = jvec.deep_view();
    let mut jv = jvec;
    let n = jv.len();
    proof {
        assert forall|t: int| 0 <= t < jv@.len() implies (#[trigger] jv@[t]).deep_view() == jurs[t]
        by {
            assert(jurs[t] == jv@[t].deep_view());
        }
    }
    let mut jrows: Vec<JurisdictionRow> = Vec::new();
    let mut drows: Vec<DocumentRow> = Vec::new();
    let mut i: usize = 0;
    while i < n
        invariant
            i <= n,
            n == jurs.len(),
            jv@.len() == n - i,
            forall|t: int| 0 <= t < jv@.len() ==> (#[trigger] jv@[t]).deep_view() == jurs[i + t],
            jrows@.len() == i,
            drows@.len() == docs_before(jurs, i as int),
            forall|d: int|
                0 <= d < drows@.len() ==> (#[trigger] drows@[d]).id == doc_base + d
                    && drows@[d].provenance == prov,
            forall|t: int|
                0 <= t < i ==> jur_row_matches(
                    #[trigger] jrows@[t],
                    jurs[t],
                    prov,
                    jur_base + t,
                    doc_base + docs_before(jurs, t),
                ),
            forall|t: int, k: int|
                0 <= t < i && 0 <= k < jurs[t].documents.len() ==> doc_row_matches(
                    #[trigger] drows@[docs_before(jurs, t) + k],
                    jurs[t].documents[k],
                    prov,
                    doc_base + docs_before(jurs, t) + k,
                ),
        decreases n - i,
    {
        proof {
            lemma_docs_before_mono(jurs, i as int, n as int);
            lemma_docs_before_mono(jurs, i + 1, n as int);
        }
        let ghost pre = jv@;
        let jur = jv.remove(0);
        proof {
            pre.remove_ensures(0);
            assert(jur.deep_view() == jurs[i as int]);
            assert forall|t: int| 0 <= t < jv@.len() implies (#[trigger] jv@[t]).deep_view()
                == jurs[i + 1 + t] by {
                assert(jv@[t] == pre[t + 1]);
            }
        }
        let Jurisdiction {
            full_name,
            county,
            state,
            subdivision,
            jurisdiction_type,
            fips,
            found,
            total_time,
            documents,
        } = jur;
        let ghost docs = jurs[i as int].documents;
        let mut dv = documents;
        let m = dv.len();
        proof {
            assert forall|t: int| 0 <= t < dv@.len() implies (#[trigger] dv@[t]).deep_view()
                == docs[t] by {
                assert(docs[t] == dv@[t].deep_view());
            }
        }
        let mut ids: Vec<u64> = Vec::new();
        let mut k: usize = 0;
        while k < m
            invariant
                k <= m,
                m == docs.len(),
                dv@.len() == m - k,
                forall|t: int| 0 <= t < dv@.len() ==> (#[trigger] dv@[t]).deep_view() == docs[k + t],
                ids@.len() == k,
                drows@.len() == docs_before(jurs, i as int) + k,
                forall|d: int|
                    0 <= d < drows@.len() ==> (#[trigger] drows@[d]).id == doc_base + d
                        && drows@[d].provenance == prov,
                forall|t: int|
                    0 <= t < k ==> ids@[t] == doc_base + docs_before(jurs, i as int) + t,
                forall|t: int, u: int|
                    0 <= t < i && 0 <= u < jurs[t].documents.len() ==> doc_row_matches(
                        #[trigger] drows@[docs_before(jurs, t) + u],
                        jurs[t].documents[u],
                        prov,
                        doc_base + docs_before(jurs, t) + u,
                    ),
                forall|u: int|
                    0 <= u < k ==> doc_row_matches(
                        #[trigger] drows@[docs_before(jurs, i as int) + u],
                        docs[u],
                        prov,
                        doc_base + docs_before(jurs, i as int) + u,
                    ),
            decreases m - k,
        {
            let ghost dpre = dv@;
            let d = dv.remove(0);
            proof {
                dpre.remove_ensures(0);
                assert(d.deep_view() == docs[k as int]);
                assert forall|t: int| 0 <= t < dv@.len() implies (#[trigger] dv@[t]).deep_view()
                    == docs[k + 1 + t] by {
                    assert(dv@[t] == dpre[t + 1]);
                }
                lemma_docs_before_mono(jurs, 0, i as int);
                assert(docs_before(jurs, i + 1) == docs_before(jurs, i as int) + docs.len());
            }
            let rid: u64 = doc_base + (drows.len() as u64);
            let ghost drows0 = drows@;
            drows.push(DocumentRow { id: rid, provenance: prov, doc: d });
            ids.push(rid);
            proof {
                assert forall|t: int, u: int|
                    0 <= t < i && 0 <= u < jurs[t].documents.len() implies doc_row_matches(
                    #[trigger] drows@[docs_before(jurs, t) + u],
                    jurs[t].documents[u],
                    prov,
                    doc_base + docs_before(jurs, t) + u,
                ) by {
                    lemma_docs_before_nonneg(jurs, t);
                    lemma_docs_before_mono(jurs, t + 1, i as int);
                    assert(docs_before(jurs, t) + u < drows0.len());
                    assert(drows@[docs_before(jurs, t) + u] == drows0[docs_before(jurs, t) + u]);
                }
            }
            k = k + 1;
        }
        proof {
            assert(docs_before(jurs, i + 1) == docs_before(jurs, i as int) + docs.len());
        }
        jrows.push(
            JurisdictionRow {
                id: jur_base + (i as u64),
                provenance: prov,
                full_name,
                county,
                state,
                subdivision,
                jurisdiction_type,
                fips,
                found,
                total_time,
                document_ids: ids,
            },
        );
        i = i + 1;
    }
    (jrows, drows)
}

/// Turn the decoded ordinance records into rows with ids from `base` on.
#[verifier::loop_isolation(false)]
fn ordinance_rows(ovec: Vec<OrdinanceRecord>, prov: u64, base: u64) -> (r: Vec<OrdinanceRow>)
    requires
        base + ovec.deep_view().len() <= u64::MAX,
    ensures
        r@.len() == ovec.deep_view().len(),
        forall|i: int|
            0 <= i < ovec.deep_view().len() ==> ord_row_matches(
                #[trigger] r@[i],
                ovec.deep_view()[i],
                prov,
                base + i,
            ),
{
    let ghost ords = ovec.deep_view();
    let mut ov = ovec;
    let n = ov.len();
    proof {
        assert forall|t: int| 0 <= t < ov@.len() implies (#[trigger] ov@[t]).deep_view() == ords[t]
        by {
            assert(ords[t] == ov@[t].deep_view());
        }
    }
    let mut rows: Vec<OrdinanceRow> = Vec::new();
    let mut i: usize = 0;
    while i < n
        invariant
            i <= n,
            n == ords.len(),
            ov@.len() == n - i,
            forall|t: int| 0 <= t < ov@.len() ==> (#[trigger] ov@[t]).deep_view() == ords[i + t],
            rows@.len() == i,
            forall|t: int|
                0 <= t < i ==> ord_row_matches(#[trigger] rows@[t], ords[t], prov, base + t),
        decreases n - i,
    {
        let ghost pre = ov@;
        let rec = ov.remove(0);
        proof {
            pre.remove_ensures(0);
            assert(rec.deep_view() == ords[i as int]);
            assert forall|t: int| 0 <= t < ov@.len() implies (#[trigger] ov@[t]).deep_view()
                == ords[i + 1 + t] by {
                assert(ov@[t] == pre[t + 1]);
            }
        }
        rows.push(OrdinanceRow { id: base + (i as u64), provenance: prov, record: rec });
        i = i + 1;
    }
    rows
}

/// Turn the retained log records into rows with ids from `base` on.
#[verifier::loop_isolation(false)]
fn log_rows(lvec: Vec<LogRecord>, prov: u64, base: u64) -> (r: Vec<LogRow>)
    requires
        base + lvec.deep_view().len() <= u64::MAX,
    ensures
        r@.len() == lvec.deep_view().len(),
        forall|i: int|
            0 <= i < lvec.deep_view().len() ==> log_row_matches(
                #[trigger] r@[i],
                lvec.deep_view()[i],
                prov,
                base + i,
            ),
{
    let ghost logs = lvec.deep_view();
    let mut lv = lvec;
    let n = lv.len();
    proof {
        assert forall|t: int| 0 <= t < lv@.len() implies (#[trigger] lv@[t]).deep_view() == logs[t]
        by {
            assert(logs[t] == lv@[t].deep_view());
        }
    }
    let mut rows: Vec<LogRow> = Vec::new();
    let mut i: usize = 0;
    while i < n
        invariant
            i <= n,
            n == logs.len(),
            lv@.len() == n - i,
            forall|t: int| 0 <= t < lv@.len() ==> (#[trigger] lv@[t]).deep_view() == logs[i + t],
            rows@.len() == i,
            forall|t: int|
                0 <= t < i ==> log_row_matches(#[trigger] rows@[t], logs[t], prov, base + t),
        decreases n - i,
    {
        let ghost pre = lv@;
        let rec = lv.remove(0);
        proof {
            pre.remove_ensures(0);
            assert(rec.deep_view() == logs[i as int]);
            assert forall|t: int| 0 <= t < lv@.len() implies (#[trigger] lv@[t]).deep_view()
                == logs[i + 1 + t] by {
                assert(lv@[t] == pre[t + 1]);
            }
        }
        rows.push(LogRow { id: base + (i as u64), provenance: prov, record: rec });
        i = i + 1;
    }
    rows
}

/// Turn the decoded usage entries into item and event rows.
///
/// Item row `i` gets id `item_base + i` and references the run row; the
/// event rows of all items follow each other from `event_base` on, each
/// referencing its item row.
#[verifier::loop_isolation(false)]
fn usage_rows(ivec: Vec<UsagePerItem>, prov: u64, run_id: u64, item_base: u64, event_base: u64) -> (r: (
    Vec<UsageItemRow>,
    Vec<UsageEventRow>,
))
    requires
        item_base + ivec.deep_view().len() <= u64::MAX,
        event_base + total_events(ivec.deep_view()) <= u64::MAX,
    ensures
        ({
            let items = ivec.deep_view();
            &&& r.0@.len() == items.len()
            &&& forall|i: int|
                0 <= i < items.len() ==> item_row_matches(
                    #[trigger] r.0@[i],
                    items[i],
                    prov,
                    run_id,
                    item_base + i,
                )
            &&& r.1@.len() == total_events(items)
            &&& forall|i: int, k: int|
                0 <= i < items.len() && 0 <= k < items[i].events.len() ==> event_row_matches(
                    #[trigger] r.1@[events_before(items, i) + k],
                    items[i].events[k],
                    prov,
                    item_base + i,
                    event_base + events_before(items, i) + k,
                )
            &&& forall|d: int|
                0 <= d < r.1@.len() ==> (#[trigger] r.1@[d]).id == event_base + d
                    && r.1@[d].provenance == prov
        }),
{
    let ghost items = ivec.deep_view();
    let mut iv = ivec;
    let n = iv.len();
    proof {
        assert forall|t: int| 0 <= t < iv@.len() implies (#[trigger] iv@[t]).deep_view() == items[t]
        by {
            assert(items[t] == iv@[t].deep_view());
        }
    }
    let mut irows: Vec<UsageItemRow> = Vec::new();
    let mut erows: Vec<UsageEventRow> = Vec::new();
    let mut i: usize = 0;
    while i < n
        invariant
            i <= n,
            n == items.len(),
            iv@.len() == n - i,
            forall|t: int| 0 <= t < iv@.len() ==> (#[trigger] iv@[t]).deep_view() == items[i + t],
            irows@.len() == i,
            erows@.len() == events_before(items, i as int),
            forall|d: int|
                0 <= d < erows@.len() ==> (#[trigger] erows@[d]).id == event_base + d
                    && erows@[d].provenance == prov,
            forall|t: int|
                0 <= t < i ==> item_row_matches(
                    #[trigger] irows@[t],
                    items[t],
                    prov,
                    run_id,
                    item_base + t,
                ),
            forall|t: int, u: int|
                0 <= t < i && 0 <= u < items[t].events.len() ==> event_row_matches(
                    #[trigger] erows@[events_before(items, t) + u],
                    items[t].events[u],
                    prov,
                    item_base + t,
                    event_base + events_before(items, t) + u,
                ),
        decreases n - i,
    {
        proof {
            lemma_events_before_mono(items, i as int, n as int);
            lemma_events_before_mono(items, i + 1, n as int);
        }
        let ghost pre = iv@;
        let item = iv.remove(0);
        proof {
            pre.remove_ensures(0);
            assert(item.deep_view() == items[i as int]);
            assert forall|t: int| 0 <= t < iv@.len() implies (#[trigger] iv@[t]).deep_view()
                == items[i + 1 + t] by {
                assert(iv@[t] == pre[t + 1]);
            }
        }
        let UsagePerItem {
            name,
            total_time,
            total_requests,
            total_prompt_tokens,
            total_response_tokens,
            events,
        } = item;
        let ghost evs = items[i as int].events;
        let mut ev = events;
        let m = ev.len();
        proof {
            assert forall|t: int| 0 <= t < ev@.len() implies (#[trigger] ev@[t]).deep_view()
                == evs[t] by {
                assert(evs[t] == ev@[t].deep_view());
            }
        }
        let mut k: usize = 0;
        while k < m
            invariant
                k <= m,
                m == evs.len(),
                ev@.len() == m - k,
                forall|t: int| 0 <= t < ev@.len() ==> (#[trigger] ev@[t]).deep_view() == evs[k + t],
                erows@.len() == events_before(items, i as int) + k,
                forall|d: int|
                    0 <= d < erows@.len() ==> (#[trigger] erows@[d]).id == event_base + d
                        && erows@[d].provenance == prov,
                forall|t: int, u: int|
                    0 <= t < i && 0 <= u < items[t].events.len() ==> event_row_matches(
                        #[trigger] erows@[events_before(items, t) + u],
                        items[t].events[u],
                        prov,
                        item_base + t,
                        event_base + events_before(items, t) + u,
                    ),
                forall|u: int|
                    0 <= u < k ==> event_row_matches(
                        #[trigger] erows@[events_before(items, i as int) + u],
                        evs[u],
                        prov,
                        item_base + i,
                        event_base + events_before(items, i as int) + u,
                    ),
            decreases m - k,
        {
            let ghost epre = ev@;
            let e = ev.remove(0);
            proof {
                epre.remove_ensures(0);
                assert(e.deep_view() == evs[k as int]);
                assert forall|t: int| 0 <= t < ev@.len() implies (#[trigger] ev@[t]).deep_view()
                    == evs[k + 1 + t] by {
                    assert(ev@[t] == epre[t + 1]);
                }
                lemma_events_before_mono(items, 0, i as int);
                assert(events_before(items, i + 1) == events_before(items, i as int) + evs.len());
            }
            let rid: u64 = event_base + (erows.len() as u64);
            let ghost erows0 = erows@;
            erows.push(
                UsageEventRow { id: rid, provenance: prov, item: item_base + (i as u64), event: e },
            );
            proof {
                assert forall|t: int, u: int|
                    0 <= t < i && 0 <= u < items[t].events.len() implies event_row_matches(
                    #[trigger] erows@[events_before(items, t) + u],
                    items[t].events[u],
                    prov,
                    item_base + t,
                    event_base + events_before(items, t) + u,
                ) by {
                    lemma_events_before_nonneg(items, t);
                    lemma_events_before_mono(items, t + 1, i as int);
                    assert(events_before(items, t) + u < erows0.len());
                    assert(erows@[events_before(items, t) + u] == erows0[events_before(items, t)
                        + u]);
                }
            }
            k = k + 1;
        }
        proof {
            assert(events_before(items, i + 1) == events_before(items, i as int) + evs.len());
        }
        irows.push(
            UsageItemRow {
                id: item_base + (i as u64),
                provenance: prov,
                run: run_id,
                name,
                total_time,
                total_requests,
                total_prompt_tokens,
                total_response_tokens,
            },
        );
        i = i + 1;
    }
    (irows, erows)
}

pub proof fn lemma_events_before_nonneg(items: Seq<UsagePerItemView>, i: int)
    ensures
        events_before(items, i) >= 0,
    decreases i,
{
    if i > 0 {
        lemma_events_before_nonneg(items, i - 1);
    }
}

pub proof fn lemma_events_before_mono(items: Seq<UsagePerItemView>, i: int, j: int)
    requires
        0 <= i <= j,
    ensures
        0 <= events_before(items, i) <= events_before(items, j),
    decreases j - i,
{
    lemma_events_before_nonneg(items, i);
    if i < j {
        lemma_events_before_mono(items, i, j - 1);
    }
}

/// How many rows one commit writes: the provenance record, the run-level
/// usage row and the configuration row, plus one row per jurisdiction,
/// document, ordinance record, usage item, usage event and retained log
/// record.
pub open spec fn rows_needed(
    jurs: Seq<JurisdictionView>,
    ords: int,
    items: Seq<UsagePerItemView>,
    logs: int,
) -> int {
    3 + jurs.len() + total_docs(jurs) + ords + items.len() + total_events(items) + logs
}

/// Whether the id sequence has room for one more commit of this run.
pub open spec fn capacity_ok(
    next_id: u64,
    jurs: Seq<JurisdictionView>,
    ords: int,
    items: Seq<UsagePerItemView>,
    logs: int,
) -> bool {
    next_id + rows_needed(jurs, ords, items, logs) <= u64::MAX
}

/// `capacity_ok`, taken over a decoded artifact set.
pub open spec fn arts_capacity_ok(next_id: u64, arts: ArtifactSet) -> bool {
    capacity_ok(
        next_id,
        arts.jurisdictions.jurisdictions.deep_view(),
        arts.ordinances.records.deep_view().len() as int,
        arts.usage.items.deep_view(),
        arts.logs.records.deep_view().len() as int,
    )
}

/// Everything a successful commit guarantees: the provenance row carries
/// the given id and fields; every table keeps its old rows and gains
/// exactly the run's rows, in artifact order, every one tagged with the
/// provenance id as its foreign key; ids are assigned consecutively from
/// the id sequence, so the returned id is greater than every previously
/// issued one.
pub open spec fn committed(
    pre: Store,
    post: Store,
    id: u64,
    run_hash: Seq<char>,
    username: Seq<char>,
    comment: Seq<char>,
    model: Seq<char>,
    rate: u64,
    extra: Seq<(String, JsonValue)>,
    jurs: Seq<JurisdictionView>,
    ords: Seq<OrdinanceRecordView>,
    usage_total: Seq<char>,
    items: Seq<UsagePerItemView>,
    logs: Seq<LogRecordView>,
) -> bool {
    let nj = jurs.len() as int;
    let nd = total_docs(jurs);
    let no = ords.len() as int;
    let ni = items.len() as int;
    let ne = total_events(items);
    let nl = logs.len() as int;
    let b1 = id + 1;
    let b2 = b1 + nj;
    let b3 = b2 + nd;
    let b4 = b3 + no;
    let b5 = b4 + 1;
    let b6 = b5 + ni;
    let b7 = b6 + ne;
    let b8 = b7 + nl;
    &&& id == pre.next_id
    &&& post.next_id == b8 + 1
    &&& forall|i: int|
        0 <= i < pre.provenance@.len() ==> (#[trigger] pre.provenance@[i]).id < id
    &&& post.provenance@.len() == pre.provenance@.len() + 1
    &&& post.provenance@.drop_last() == pre.provenance@
    &&& post.provenance@.last().id == id
    &&& post.provenance@.last().run_hash@ == run_hash
    &&& post.provenance@.last().username@ == username
    &&& post.provenance@.last().comment@ == comment
    &&& post.provenance@.last().model@ == model
    &&& post.jurisdictions@.len() == pre.jurisdictions@.len() + nj
    &&& post.jurisdictions@.subrange(0, pre.jurisdictions@.len() as int) == pre.jurisdictions@
    &&& forall|i: int|
        0 <= i < nj ==> jur_row_matches(
            #[trigger] post.jurisdictions@[pre.jurisdictions@.len() + i],
            jurs[i],
            id,
            b1 + i,
            b2 + docs_before(jurs, i),
        )
    &&& post.documents@.len() == pre.documents@.len() + nd
    &&& post.documents@.subrange(0, pre.documents@.len() as int) == pre.documents@
    &&& forall|i: int, k: int|
        0 <= i < nj && 0 <= k < jurs[i].documents.len() ==> doc_row_matches(
            #[trigger] post.documents@[pre.documents@.len() + docs_before(jurs, i) + k],
            jurs[i].documents[k],
            id,
            b2 + docs_before(jurs, i) + k,
        )
    &&& post.ordinances@.len() == pre.ordinances@.len() + no
    &&& post.ordinances@.subrange(0, pre.ordinances@.len() as int) == pre.ordinances@
    &&& forall|i: int|
        0 <= i < no ==> ord_row_matches(
            #[trigger] post.ordinances@[pre.ordinances@.len() + i],
            ords[i],
            id,
            b3 + i,
        )
    &&& post.usage_runs@.len() == pre.usage_runs@.len() + 1
    &&& post.usage_runs@.drop_last() == pre.usage_runs@
    &&& post.usage_runs@.last().id == b4
    &&& post.usage_runs@.last().provenance == id
    &&& post.usage_runs@.last().total_time@ == usage_total
    &&& post.usage_items@.len() == pre.usage_items@.len() + ni
    &&& post.usage_items@.subrange(0, pre.usage_items@.len() as int) == pre.usage_items@
    &&& forall|i: int|
        0 <= i < ni ==> item_row_matches(
            #[trigger] post.usage_items@[pre.usage_items@.len() + i],
            items[i],
            id,
            (b4 as u64),
            b5 + i,
        )
    &&& post.usage_events@.len() == pre.usage_events@.len() + ne
    &&& post.usage_events@.subrange(0, pre.usage_events@.len() as int) == pre.usage_events@
    &&& forall|i: int, k: int|
        0 <= i < ni && 0 <= k < items[i].events.len() ==> event_row_matches(
            #[trigger] post.usage_events@[pre.usage_events@.len() + events_before(items, i) + k],
            items[i].events[k],
            id,
            b5 + i,
            b6 + events_before(items, i) + k,
        )
    &&& post.logs@.len() == pre.logs@.len() + nl
    &&& post.logs@.subrange(0, pre.logs@.len() as int) == pre.logs@
    &&& forall|i: int|
        0 <= i < nl ==> log_row_matches(#[trigger] post.logs@[pre.logs@.len() + i], logs[i], id, b7 + i)
    &&& post.configs@.len() == pre.configs@.len() + 1
    &&& post.configs@.drop_last() == pre.configs@
    &&& post.configs@.last().id == b8
    &&& post.configs@.last().provenance == id
    &&& post.configs@.last().model@ == model
    &&& post.configs@.last().llm_service_rate_limit == rate
    &&& post.configs@.last().extra@ == extra
}

/// `committed`, taken over a decoded artifact set.
pub open spec fn arts_committed(
    pre: Store,
    post: Store,
    id: u64,
    run_hash: Seq<char>,
    username: Seq<char>,
    comment: Seq<char>,
    arts: ArtifactSet,
) -> bool {
    committed(
        pre,
        post,
        id,
        run_hash,
        username,
        comment,
        arts.config.model@,
        arts.config.llm_service_rate_limit,
        arts.config.extra@,
        arts.jurisdictions.jurisdictions.deep_view(),
        arts.ordinances.records.deep_view(),
        arts.usage.total_time_seconds@,
        arts.usage.items.deep_view(),
        arts.logs.records.deep_view(),
    )
}

/// Extending the provenance table keeps every committed id committed.
proof fn lemma_has_provenance_push(ps: Seq<ProvenanceRecord>, rec: ProvenanceRecord)
    ensures
        forall|fk: u64| has_provenance(ps, fk) ==> has_provenance(ps.push(rec), fk),
        has_provenance(ps.push(rec), rec.id),
{
    assert forall|fk: u64| has_provenance(ps, fk) implies has_provenance(ps.push(rec), fk) by {
        let j = choose|j: int| 0 <= j < ps.len() && (#[trigger] ps[j]).id == fk;
        assert(ps.push(rec)[j].id == fk);
    }
    assert(ps.push(rec)[ps.len() as int].id == rec.id);
}

impl Store {
    /// Commit one run: insert its provenance record and every derived
    /// row, all tagged with the new provenance id, as one transaction.
    ///
    /// A `fault`, standing for an engine failure while the given entity
    /// family's writer runs, aborts the whole transaction: the store is
    /// exactly as before, and nothing of the run is visible.  The same
    /// holds when the id sequence cannot supply the run's ids.  On
    /// success the returned id is greater than every previously issued
    /// provenance id and every row written carries it as foreign key.
    #[verifier::loop_isolation(false)]
    pub fn commit(
        &mut self,
        username: String,
        comment: String,
        run_hash: String,
        arts: ArtifactSet,
        fault: Option<EntityFamily>,
    ) -> (r: Result<u64, IngestError>)
        requires
            old(self).wf(),
        ensures
            final(self).wf(),
            match fault {
                Some(f) => r == Result::<u64, IngestError>::Err(
                    IngestError::TransactionAborted(f),
                ) && *final(self) == *old(self),
                None => if arts_capacity_ok(old(self).next_id, arts) {
                    r == Result::<u64, IngestError>::Ok(old(self).next_id) && arts_committed(
                        *old(self),
                        *final(self),
                        old(self).next_id,
                        run_hash@,
                        username@,
                        comment@,
                        arts,
                    )
                } else {
                    r == Result::<u64, IngestError>::Err(IngestError::DatabaseError) && *final(self)
                        == *old(self)
                },
            },
    {
        match fault {
            Some(f) => {
                return Err(IngestError::TransactionAborted(f));
            },
            None => {},
        }
        let ghost jurs = arts.jurisdictions.jurisdictions.deep_view();
        let ghost items = arts.usage.items.deep_view();
        // Count the rows this run needs and check the id sequence's room.
        let nj: u64 = arts.jurisdictions.jurisdictions.len() as u64;
        let no: u64 = arts.ordinances.records.len() as u64;
        let ni: u64 = arts.usage.items.len() as u64;
        let nl: u64 = arts.logs.records.len() as u64;
        let mut nd: u64 = 0;
        let mut i: usize = 0;
        while i < arts.jurisdictions.jurisdictions.len()
            invariant
                i <= jurs.len(),
                jurs == arts.jurisdictions.jurisdictions.deep_view(),
                nd == docs_before(jurs, i as int),
            decreases jurs.len() - i,
        {
            let c: u64 = arts.jurisdictions.jurisdictions[i].documents.len() as u64;
            proof {
                assert(jurs[i as int].documents.len() == c);
            }
            if c > u64::MAX - nd {
                proof {
                    lemma_docs_before_mono(jurs, i + 1, jurs.len() as int);
                    lemma_events_before_mono(items, 0, items.len() as int);
                    assert(!arts_capacity_ok(self.next_id, arts));
                }
                return Err(IngestError::DatabaseError);
            }
            nd = nd + c;
            i = i + 1;
        }
        let mut ne: u64 = 0;
        let mut j: usize = 0;
        while j < arts.usage.items.len()
            invariant
                j <= items.len(),
                items == arts.usage.items.deep_view(),
                ne == events_before(items, j as int),
            decreases items.len() - j,
        {
            let c: u64 = arts.usage.items[j].events.len() as u64;
            proof {
                assert(items[j as int].events.len() == c);
            }
            if c > u64::MAX - ne {
                proof {
                    lemma_events_before_mono(items, j + 1, items.len() as int);
                    lemma_docs_before_nonneg(jurs, jurs.len() as int);
                    assert(!arts_capacity_ok(self.next_id, arts));
                }
                return Err(IngestError::DatabaseError);
            }
            ne = ne + c;
            j = j + 1;
        }
        let ghost needed = rows_needed(
            jurs,
            arts.ordinances.records.deep_view().len() as int,
            items,
            arts.logs.records.deep_view().len() as int,
        );
        proof {
            assert(needed == 3 + nj + nd + no + ni + ne + nl);
        }
        // Sum the counts; any overflow already exceeds the id space.
        let mut need: u64 = 3;
        if nj > u64::MAX - need {
            proof {
                assert(!arts_capacity_ok(self.next_id, arts));
            }
            return Err(IngestError::DatabaseError);
        }
        need = need + nj;
        if nd > u64::MAX - need {
            proof {
                assert(!arts_capacity_ok(self.next_id, arts));
            }
            return Err(IngestError::DatabaseError);
        }
        need = need + nd;
        if no > u64::MAX - need {
            proof {
                assert(!arts_capacity_ok(self.next_id, arts));
            }
            return Err(IngestError::DatabaseError);
        }
        need = need + no;
        if ni > u64::MAX - need {
            proof {
                assert(!arts_capacity_ok(self.next_id, arts));
            }
            return Err(IngestError::DatabaseError);
        }
        need = need + ni;
        if ne > u64::MAX - need {
            proof {
                assert(!arts_capacity_ok(self.next_id, arts));
            }
            return Err(IngestError::DatabaseError);
        }
        need = need + ne;
        if nl > u64::MAX - need {
            proof {
                assert(!arts_capacity_ok(self.next_id, arts));
            }
            return Err(IngestError::DatabaseError);
        }
        need = need + nl;
        proof {
            assert(need == needed);
        }
        if self.next_id > u64::MAX - need {
            proof {
                assert(!arts_capacity_ok(self.next_id, arts));
            }
            return Err(IngestError::DatabaseError);
        }
        proof {
            assert(arts_capacity_ok(self.next_id, arts));
        }
        // Assign the run's id range.
        let b0: u64 = self.next_id;
        let b1: u64 = b0 + 1;
        let b2: u64 = b1 + nj;
        let b3: u64 = b2 + nd;
        let b4: u64 = b3 + no;
        let b5: u64 = b4 + 1;
        let b6: u64 = b5 + ni;
        let b7: u64 = b6 + ne;
        let b8: u64 = b7 + nl;
        // Build every family's rows.
        let ArtifactSet { config, usage, jurisdictions, ordinances, logs, .. } = arts;
        let prow = ProvenanceRecord {
            id: b0,
            run_hash,
            username,
            comment,
            model: config.model.clone(),
        };
        let (mut jrows, mut drows) = jurisdiction_rows(jurisdictions.jurisdictions, b0, b1, b2);
        let mut orows = ordinance_rows(ordinances.records, b0, b3);
        let rrow = UsageRunRow { id: b4, provenance: b0, total_time: usage.total_time_seconds };
        let (mut irows, mut erows) = usage_rows(usage.items, b0, b4, b5, b6);
        let mut lrows = log_rows(logs.records, b0, b7);
        let crow = ConfigRow {
            id: b8,
            provenance: b0,
            model: config.model,
            llm_service_rate_limit: config.llm_service_rate_limit,
            extra: config.extra,
        };
        // The write phase: all or nothing.
        let ghost pre = *self;
        let ghost jrows_v = jrows@;
        let ghost drows_v = drows@;
        let ghost orows_v = orows@;
        let ghost irows_v = irows@;
        let ghost erows_v = erows@;
        let ghost lrows_v = lrows@;
        self.provenance.push(prow);
        self.jurisdictions.append(&mut jrows);
        self.documents.append(&mut drows);
        self.ordinances.append(&mut orows);
        self.usage_runs.push(rrow);
        self.usage_items.append(&mut irows);
        self.usage_events.append(&mut erows);
        self.logs.append(&mut lrows);
        self.configs.push(crow);
        self.next_id = b8 + 1;
        proof {
            lemma_has_provenance_push(pre.provenance@, self.provenance@.last());
            assert(self.provenance@.drop_last() =~= pre.provenance@);
            assert(self.jurisdictions@.subrange(0, pre.jurisdictions@.len() as int)
                =~= pre.jurisdictions@);
            assert(self.documents@.subrange(0, pre.documents@.len() as int) =~= pre.documents@);
            assert(self.ordinances@.subrange(0, pre.ordinances@.len() as int) =~= pre.ordinances@);
            assert(self.usage_runs@.drop_last() =~= pre.usage_runs@);
            assert(self.usage_items@.subrange(0, pre.usage_items@.len() as int)
                =~= pre.usage_items@);
            assert(self.usage_events@.subrange(0, pre.usage_events@.len() as int)
                =~= pre.usage_events@);
            assert(self.logs@.subrange(0, pre.logs@.len() as int) =~= pre.logs@);
            assert(self.configs@.drop_last() =~= pre.configs@);
            assert forall|i: int|
                0 <= i < jurs.len() implies jur_row_matches(
                #[trigger] self.jurisdictions@[pre.jurisdictions@.len() + i],
                jurs[i],
                b0,
                b1 + i,
                b2 + docs_before(jurs, i),
            ) by {
                assert(self.jurisdictions@[pre.jurisdictions@.len() + i] == jrows_v[i]);
            }
            assert forall|i: int, k: int|
                0 <= i < jurs.len() && 0 <= k < jurs[i].documents.len() implies doc_row_matches(
                #[trigger] self.documents@[pre.documents@.len() + docs_before(jurs, i) + k],
                jurs[i].documents[k],
                b0,
                b2 + docs_before(jurs, i) + k,
            ) by {
                lemma_docs_before_nonneg(jurs, i);
                lemma_docs_before_mono(jurs, i + 1, jurs.len() as int);
                assert(docs_before(jurs, i + 1) == docs_before(jurs, i) + jurs[i].documents.len());
                assert(self.documents@[pre.documents@.len() + docs_before(jurs, i) + k]
                    == drows_v[docs_before(jurs, i) + k]);
            }
            assert forall|i: int|
                0 <= i < arts.ordinances.records.deep_view().len() implies ord_row_matches(
                #[trigger] self.ordinances@[pre.ordinances@.len() + i],
                arts.ordinances.records.deep_view()[i],
                b0,
                b3 + i,
            ) by {
                assert(self.ordinances@[pre.ordinances@.len() + i] == orows_v[i]);
            }
            assert forall|i: int|
                0 <= i < items.len() implies item_row_matches(
                #[trigger] self.usage_items@[pre.usage_items@.len() + i],
                items[i],
                b0,
                b4,
                b5 + i,
            ) by {
                assert(self.usage_items@[pre.usage_items@.len() + i] == irows_v[i]);
            }
            assert forall|i: int, k: int|
                0 <= i < items.len() && 0 <= k < items[i].events.len() implies event_row_matches(
                #[trigger] self.usage_events@[pre.usage_events@.len() + events_before(items, i)
                    + k],
                items[i].events[k],
                b0,
                b5 + i,
                b6 + events_before(items, i) + k,
            ) by {
                lemma_events_before_nonneg(items, i);
                lemma_events_before_mono(items, i + 1, items.len() as int);
                assert(events_before(items, i + 1) == events_before(items, i)
                    + items[i].events.len());
                assert(self.usage_events@[pre.usage_events@.len() + events_before(items, i) + k]
                    == erows_v[events_before(items, i) + k]);
            }
            assert forall|i: int|
                0 <= i < arts.logs.records.deep_view().len() implies log_row_matches(
                #[trigger] self.logs@[pre.logs@.len() + i],
                arts.logs.records.deep_view()[i],
                b0,
                b7 + i,
            ) by {
                assert(self.logs@[pre.logs@.len() + i] == lrows_v[i]);
            }
            assert(arts_committed(
                pre,
                *self,
                b0,
                prow.run_hash@,
                prow.username@,
                prow.comment@,
                arts,
            ));
            assert forall|i: int|
                pre.jurisdictions@.len() <= i < self.jurisdictions@.len() implies b0 <= (
            #[trigger] self.jurisdictions@[i]).id < self.next_id && self.jurisdictions@[i].provenance
                == b0 by {
                let t = i - pre.jurisdictions@.len();
                assert(self.jurisdictions@[pre.jurisdictions@.len() + t] == jrows_v[t]);
            }
            assert forall|i: int|
                pre.documents@.len() <= i < self.documents@.len() implies b0 <= (
            #[trigger] self.documents@[i]).id < self.next_id && self.documents@[i].provenance == b0 by {
                let t = i - pre.documents@.len();
                assert(self.documents@[pre.documents@.len() + t] == drows_v[t]);
            }
            assert forall|i: int|
                pre.ordinances@.len() <= i < self.ordinances@.len() implies b0 <= (
            #[trigger] self.ordinances@[i]).id < self.next_id && self.ordinances@[i].provenance
                == b0 by {
                let t = i - pre.ordinances@.len();
                assert(self.ordinances@[pre.ordinances@.len() + t] == orows_v[t]);
            }
            assert forall|i: int|
                pre.usage_runs@.len() <= i < self.usage_runs@.len() implies b0 <= (
            #[trigger] self.usage_runs@[i]).id < self.next_id && self.usage_runs@[i].provenance
                == b0 by {
                assert(i == pre.usage_runs@.len());
                assert(self.usage_runs@[i] == self.usage_runs@.last());
            }
            assert forall|i: int|
                pre.usage_items@.len() <= i < self.usage_items@.len() implies b0 <= (
            #[trigger] self.usage_items@[i]).id < self.next_id && self.usage_items@[i].provenance
                == b0 by {
                let t = i - pre.usage_items@.len();
                assert(self.usage_items@[pre.usage_items@.len() + t] == irows_v[t]);
            }
            assert forall|i: int|
                pre.usage_events@.len() <= i < self.usage_events@.len() implies b0 <= (
            #[trigger] self.usage_events@[i]).id < self.next_id && self.usage_events@[i].provenance
                == b0 by {
                let t = i - pre.usage_events@.len();
                assert(self.usage_events@[pre.usage_events@.len() + t] == erows_v[t]);
            }
            assert forall|i: int|
                pre.logs@.len() <= i < self.logs@.len() implies b0 <= (
            #[trigger] self.logs@[i]).id < self.next_id && self.logs@[i].provenance == b0 by {
                let t = i - pre.logs@.len();
                assert(self.logs@[pre.logs@.len() + t] == lrows_v[t]);
            }
            assert forall|i: int|
                pre.configs@.len() <= i < self.configs@.len() implies b0 <= (
            #[trigger] self.configs@[i]).id < self.next_id && self.configs@[i].provenance == b0 by {
                assert(i == pre.configs@.len());
                assert(self.configs@[i] == self.configs@.last());
            }
            lemma_commit_wf(pre, *self, b0);
        }
        Ok(b0)
    }
}

/// A store stays well-formed across one commit's appends.
#[verifier::rlimit(100)]
proof fn lemma_commit_wf(pre: Store, post: Store, id: u64)
    requires
        pre.wf(),
        id == pre.next_id,
        post.next_id > id,
        post.provenance@.len() == pre.provenance@.len() + 1,
        post.provenance@.drop_last() == pre.provenance@,
        post.provenance@.last().id == id,
        post.jurisdictions@.subrange(0, pre.jurisdictions@.len() as int) == pre.jurisdictions@,
        forall|i: int|
            pre.jurisdictions@.len() <= i < post.jurisdictions@.len() ==> id <= (
            #[trigger] post.jurisdictions@[i]).id < post.next_id && post.jurisdictions@[i].provenance
                == id,
        pre.jurisdictions@.len() <= post.jurisdictions@.len(),
        post.documents@.subrange(0, pre.documents@.len() as int) == pre.documents@,
        forall|i: int|
            pre.documents@.len() <= i < post.documents@.len() ==> id <= (
            #[trigger] post.documents@[i]).id < post.next_id && post.documents@[i].provenance == id,
        pre.documents@.len() <= post.documents@.len(),
        post.ordinances@.subrange(0, pre.ordinances@.len() as int) == pre.ordinances@,
        forall|i: int|
            pre.ordinances@.len() <= i < post.ordinances@.len() ==> id <= (
            #[trigger] post.ordinances@[i]).id < post.next_id && post.ordinances@[i].provenance
                == id,
        pre.ordinances@.len() <= post.ordinances@.len(),
        post.usage_runs@.subrange(0, pre.usage_runs@.len() as int) == pre.usage_runs@,
        forall|i: int|
            pre.usage_runs@.len() <= i < post.usage_runs@.len() ==> id <= (
            #[trigger] post.usage_runs@[i]).id < post.next_id && post.usage_runs@[i].provenance
                == id,
        pre.usage_runs@.len() <= post.usage_runs@.len(),
        post.usage_items@.subrange(0, pre.usage_items@.len() as int) == pre.usage_items@,
        forall|i: int|
            pre.usage_items@.len() <= i < post.usage_items@.len() ==> id <= (
            #[trigger] post.usage_items@[i]).id < post.next_id && post.usage_items@[i].provenance
                == id,
        pre.usage_items@.len() <= post.usage_items@.len(),
        post.usage_events@.subrange(0, pre.usage_events@.len() as int) == pre.usage_events@,
        forall|i: int|
            pre.usage_events@.len() <= i < post.usage_events@.len() ==> id <= (
            #[trigger] post.usage_events@[i]).id < post.next_id && post.usage_events@[i].provenance
                == id,
        pre.usage_events@.len() <= post.usage_events@.len(),
        post.logs@.subrange(0, pre.logs@.len() as int) == pre.logs@,
        forall|i: int|
            pre.logs@.len() <= i < post.logs@.len() ==> id <= (#[trigger] post.logs@[i]).id
                < post.next_id && post.logs@[i].provenance == id,
        pre.logs@.len() <= post.logs@.len(),
        post.configs@.subrange(0, pre.configs@.len() as int) == pre.configs@,
        forall|i: int|
            pre.configs@.len() <= i < post.configs@.len() ==> id <= (
            #[trigger] post.configs@[i]).id < post.next_id && post.configs@[i].provenance == id,
        pre.configs@.len() <= post.configs@.len(),
    ensures
        post.wf(),
{
    assert forall|fk: u64| has_provenance(pre.provenance@, fk) implies has_provenance(
        post.provenance@,
        fk,
    ) by {
        let j = choose|j: int|
            0 <= j < pre.provenance@.len() && (#[trigger] pre.provenance@[j]).id == fk;
        assert(post.provenance@.drop_last()[j] == pre.provenance@[j]);
        assert(post.provenance@[j].id == fk);
    }
    assert(post.provenance@[pre.provenance@.len() as int].id == id);
    assert(has_provenance(post.provenance@, id));
    assert forall|i: int| 0 <= i < post.provenance@.len() implies (
    #[trigger] post.provenance@[i]).id < post.next_id by {
        if i < pre.provenance@.len() {
            assert(post.provenance@.drop_last()[i] == pre.provenance@[i]);
            assert(pre.provenance@[i].id < pre.next_id);
        } else {
            assert(i == pre.provenance@.len());
            assert(post.provenance@[i].id == id);
        }
    }
    assert forall|i: int, j: int|
        0 <= i < j < post.provenance@.len() implies post.provenance@[i].id
        < post.provenance@[j].id by {
        if j < pre.provenance@.len() {
            assert(post.provenance@.drop_last()[i] == pre.provenance@[i]);
            assert(post.provenance@.drop_last()[j] == pre.provenance@[j]);
            assert(pre.provenance@[i].id < pre.provenance@[j].id);
        } else {
            assert(post.provenance@.drop_last()[i] == pre.provenance@[i]);
            assert(pre.provenance@[i].id < pre.next_id);
            assert(j == pre.provenance@.len());
            assert(post.provenance@[j].id == id);
        }
    }
    assert forall|i: int| 0 <= i < post.jurisdictions@.len() implies (
    #[trigger] post.jurisdictions@[i]).id < post.next_id && has_provenance(
        post.provenance@,
        post.jurisdictions@[i].provenance,
    ) by {
        if i < pre.jurisdictions@.len() {
            assert(post.jurisdictions@[i] == pre.jurisdictions@[i]);
        }
    }
    assert forall|i: int| 0 <= i < post.documents@.len() implies (
    #[trigger] post.documents@[i]).id < post.next_id && has_provenance(
        post.provenance@,
        post.documents@[i].provenance,
    ) by {
        if i < pre.documents@.len() {
            assert(post.documents@[i] == pre.documents@[i]);
        }
    }
    assert forall|i: int| 0 <= i < post.ordinances@.len() implies (
    #[trigger] post.ordinances@[i]).id < post.next_id && has_provenance(
        post.provenance@,
        post.ordinances@[i].provenance,
    ) by {
        if i < pre.ordinances@.len() {
            assert(post.ordinances@[i] == pre.ordinances@[i]);
        }
    }
    assert forall|i: int| 0 <= i < post.usage_runs@.len() implies (
    #[trigger] post.usage_runs@[i]).id < post.next_id && has_provenance(
        post.provenance@,
        post.usage_runs@[i].provenance,
    ) by {
        if i < pre.usage_runs@.len() {
            assert(post.usage_runs@[i] == pre.usage_runs@[i]);
        }
    }
    assert forall|i: int| 0 <= i < post.usage_items@.len() implies (
    #[trigger] post.usage_items@[i]).id < post.next_id && has_provenance(
        post.provenance@,
        post.usage_items@[i].provenance,
    ) by {
        if i < pre.usage_items@.len() {
            assert(post.usage_items@[i] == pre.usage_items@[i]);
        }
    }
    assert forall|i: int| 0 <= i < post.usage_events@.len() implies (
    #[trigger] post.usage_events@[i]).id < post.next_id && has_provenance(
        post.provenance@,
        post.usage_events@[i].provenance,
    ) by {
        if i < pre.usage_events@.len() {
            assert(post.usage_events@[i] == pre.usage_events@[i]);
        }
    }
    assert forall|i: int| 0 <= i < post.logs@.len() implies (#[trigger] post.logs@[i]).id
        < post.next_id && has_provenance(post.provenance@, post.logs@[i].provenance) by {
        if i < pre.logs@.len() {
            assert(post.logs@[i] == pre.logs@[i]);
        }
    }
    assert forall|i: int| 0 <= i < post.configs@.len() implies (#[trigger] post.configs@[i]).id
        < post.next_id && has_provenance(post.provenance@, post.configs@[i].provenance) by {
        if i < pre.configs@.len() {
            assert(post.configs@[i] == pre.configs@[i]);
        }
    }
}

} // verus!


