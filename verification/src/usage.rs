//! The usage artifact (`usage.json`).
//!
//! Run-level elapsed time, then per-jurisdiction usage, then per-event
//! request and token counters — a strict three-level containment.  Each
//! jurisdiction entry carries a `tracker_totals` aggregate event, which
//! supplies the per-jurisdiction totals.  Elapsed times are numbers the
//! data model does not compute with, so they are kept as their decimal
//! text.

use vstd::prelude::*;

use crate::error::{ArtifactKind, IngestError};
use crate::json::{get_num_text, get_u64, json_parse, num_field, u64_field, JsonValue};

verus! {

/// Counters of one named event of one jurisdiction.
#[derive(Debug)]
pub struct UsageEvent {
    pub name: String,
    pub requests: u64,
    pub prompt_tokens: u64,
    pub response_tokens: u64,
}

/// The mathematical shape of a usage event.
pub ghost struct UsageEventView {
    pub name: Seq<char>,
    pub requests: u64,
    pub prompt_tokens: u64,
    pub response_tokens: u64,
}

impl View for UsageEvent {
    type V = UsageEventView;

    open spec fn view(&self) -> UsageEventView {
        UsageEventView {
            name: self.name@,
            requests: self.requests,
            prompt_tokens: self.prompt_tokens,
            response_tokens: self.response_tokens,
        }
    }
}

impl DeepView for UsageEvent {
    type V = UsageEventView;

    open spec fn deep_view(&self) -> UsageEventView {
        self.view()
    }
}

/// Usage of one jurisdiction: elapsed time, aggregate counters from its
/// `tracker_totals` event, and every named event.
#[derive(Debug)]
pub struct UsagePerItem {
    pub name: String,
    /// Elapsed seconds, as the JSON number's text.
    pub total_time: String,
    pub total_requests: u64,
    pub total_prompt_tokens: u64,
    pub total_response_tokens: u64,
    /// All events, in their original order, `tracker_totals` included.
    pub events: Vec<UsageEvent>,
}

/// The mathematical shape of one jurisdiction's usage.
pub ghost struct UsagePerItemView {
    pub name: Seq<char>,
    pub total_time: Seq<char>,
    pub total_requests: u64,
    pub total_prompt_tokens: u64,
    pub total_response_tokens: u64,
    pub events: Seq<UsageEventView>,
}

impl View for UsagePerItem {
    type V = UsagePerItemView;

    open spec fn view(&self) -> UsagePerItemView {
        UsagePerItemView {
            name: self.name@,
            total_time: self.total_time@,
            total_requests: self.total_requests,
            total_prompt_tokens: self.total_prompt_tokens,
            total_response_tokens: self.total_response_tokens,
            events: self.events.deep_view(),
        }
    }
}

impl DeepView for UsagePerItem {
    type V = UsagePerItemView;

    open spec fn deep_view(&self) -> UsagePerItemView {
        self.view()
    }
}

/// The decoded usage artifact.
#[derive(Debug)]
pub struct UsageRecord {
    /// Run-level elapsed seconds, as the JSON number's text.
    pub total_time_seconds: String,
    /// Per-jurisdiction usage, in original order.
    pub items: Vec<UsagePerItem>,
}

/// A key that carries elapsed time rather than a nested entry.
pub open spec fn is_time_key(k: Seq<char>) -> bool {
    k == "total_time_seconds"@ || k == "total_time"@
}

/// The event a JSON value denotes: an object with `requests`,
/// `prompt_tokens` and `response_tokens` counters.
pub open spec fn event_of(name: Seq<char>, v: JsonValue) -> Option<UsageEventView> {
    match v {
        JsonValue::Obj(fields) => {
            let f = fields@;
            if u64_field(f, "requests"@) is Some && u64_field(f, "prompt_tokens"@) is Some
                && u64_field(f, "response_tokens"@) is Some {
                Some(
                    UsageEventView {
                        name: name,
                        requests: u64_field(f, "requests"@)->0,
                        prompt_tokens: u64_field(f, "prompt_tokens"@)->0,
                        response_tokens: u64_field(f, "response_tokens"@)->0,
                    },
                )
            } else {
                None
            }
        },
        _ => None,
    }
}

/// The events of a jurisdiction entry, from field `i` on: every field
/// other than the elapsed-time keys, each a well-formed event.
pub open spec fn events_from(fields: Seq<(String, JsonValue)>, i: int) -> Option<
    Seq<UsageEventView>,
>
    decreases fields.len() - i,
{
    if i < 0 || i >= fields.len() {
        Some(Seq::empty())
    } else if is_time_key(fields[i].0@) {
        events_from(fields, i + 1)
    } else {
        match event_of(fields[i].0@, fields[i].1) {
            None => None,
            Some(e) => match events_from(fields, i + 1) {
                None => None,
                Some(rest) => Some(seq![e] + rest),
            },
        }
    }
}

/// The first event named `name`, if any.
pub open spec fn find_event(events: Seq<UsageEventView>, name: Seq<char>) -> Option<UsageEventView>
    decreases events.len(),
{
    if events.len() == 0 {
        None
    } else if events[0].name == name {
        Some(events[0])
    } else {
        find_event(events.drop_first(), name)
    }
}

/// The jurisdiction entry a JSON value denotes: elapsed time, events, and
/// a `tracker_totals` aggregate among them.
pub open spec fn item_of(name: Seq<char>, v: JsonValue) -> Option<UsagePerItemView> {
    match v {
        JsonValue::Obj(fields) => {
            let f = fields@;
            if num_field(f, "total_time_seconds"@) is Some && events_from(f, 0) is Some
                && find_event(events_from(f, 0)->0, "tracker_totals"@) is Some {
                let totals = find_event(events_from(f, 0)->0, "tracker_totals"@)->0;
                Some(
                    UsagePerItemView {
                        name: name,
                        total_time: num_field(f, "total_time_seconds"@)->0,
                        total_requests: totals.requests,
                        total_prompt_tokens: totals.prompt_tokens,
                        total_response_tokens: totals.response_tokens,
                        events: events_from(f, 0)->0,
                    },
                )
            } else {
                None
            }
        },
        _ => None,
    }
}

/// The jurisdiction entries of the usage object, from field `i` on: every
/// field other than the elapsed-time keys, each a well-formed entry.
pub open spec fn items_from(fields: Seq<(String, JsonValue)>, i: int) -> Option<
    Seq<UsagePerItemView>,
>
    decreases fields.len() - i,
{
    if i < 0 || i >= fields.len() {
        Some(Seq::empty())
    } else if is_time_key(fields[i].0@) {
        items_from(fields, i + 1)
    } else {
        match item_of(fields[i].0@, fields[i].1) {
            None => None,
            Some(it) => match items_from(fields, i + 1) {
                None => None,
                Some(rest) => Some(seq![it] + rest),
            },
        }
    }
}

/// The usage record a JSON document denotes.
pub open spec fn usage_of(doc: JsonValue) -> Option<(Seq<char>, Seq<UsagePerItemView>)> {
    match doc {
        JsonValue::Obj(fields) => {
            let f = fields@;
            if num_field(f, "total_time_seconds"@) is Some && items_from(f, 0) is Some {
                Some((num_field(f, "total_time_seconds"@)->0, items_from(f, 0)->0))
            } else {
                None
            }
        },
        _ => None,
    }
}

impl UsageEvent {
    /// Decode one named event.
    pub fn from_value(name: String, v: &JsonValue) -> (r: Result<UsageEvent, IngestError>)
        ensures
            match r {
                Ok(e) => event_of(name@, *v) == Some(e@),
                Err(err) => event_of(name@, *v) is None && err == IngestError::MalformedArtifact(
                    ArtifactKind::Usage,
                ),
            },
    {
        let malformed = IngestError::MalformedArtifact(ArtifactKind::Usage);
        match v {
            JsonValue::Obj(fields) => {
                let requests = match get_u64(fields, &String::from_str("requests")) {
                    Some(x) => x,
                    None => {
                        return Err(malformed);
                    },
                };
                let prompt_tokens = match get_u64(fields, &String::from_str("prompt_tokens")) {
                    Some(x) => x,
                    None => {
                        return Err(malformed);
                    },
                };
                let response_tokens = match get_u64(fields, &String::from_str("response_tokens")) {
                    Some(x) => x,
                    None => {
                        return Err(malformed);
                    },
                };
                Ok(UsageEvent { name, requests, prompt_tokens, response_tokens })
            },
            _ => Err(malformed),
        }
    }
}

/// Whether `k` is one of the elapsed-time keys.
fn time_key(k: &String) -> (r: bool)
    ensures
        r == is_time_key(k@),
{
    k.eq(&String::from_str("total_time_seconds")) || k.eq(&String::from_str("total_time"))
}

/// The first event named `tracker_totals`, if any.
fn find_tracker(events: &Vec<UsageEvent>) -> (r: Option<usize>)
    ensures
        match r {
            Some(i) => i < events@.len() && find_event(events.deep_view(), "tracker_totals"@)
                == Some(events@[i as int]@),
            None => find_event(events.deep_view(), "tracker_totals"@) is None,
        },
{
    let key: String = String::from_str("tracker_totals");
    let n = events.len();
    let mut i: usize = 0;
    while i < n
        invariant
            n == events@.len(),
            i <= n,
            key@ == "tracker_totals"@,
            forall|j: int| 0 <= j < i ==> (#[trigger] events@[j]).name@ != "tracker_totals"@,
        decreases n - i,
    {
        if events[i].name.eq(&key) {
            proof {
                lemma_find_event_at(events.deep_view(), "tracker_totals"@, i as int);
            }
            return Some(i);
        }
        i = i + 1;
    }
    proof {
        lemma_find_event_absent(events.deep_view(), "tracker_totals"@);
    }
    None
}

proof fn lemma_find_event_at(events: Seq<UsageEventView>, name: Seq<char>, i: int)
    requires
        0 <= i < events.len(),
        events[i].name == name,
        forall|j: int| 0 <= j < i ==> (#[trigger] events[j]).name != name,
    ensures
        find_event(events, name) == Some(events[i]),
    decreases i,
{
    if i > 0 {
        lemma_find_event_at(events.drop_first(), name, i - 1);
    }
}

proof fn lemma_find_event_absent(events: Seq<UsageEventView>, name: Seq<char>)
    requires
        forall|j: int| 0 <= j < events.len() ==> (#[trigger] events[j]).name != name,
    ensures
        find_event(events, name) is None,
    decreases events.len(),
{
    if events.len() > 0 {
        lemma_find_event_absent(events.drop_first(), name);
    }
}

impl UsagePerItem {
    /// Decode one jurisdiction's usage entry.
    #[verifier::loop_isolation(false)]
    pub fn from_value(name: String, v: &JsonValue) -> (r: Result<UsagePerItem, IngestError>)
        ensures
            match r {
                Ok(it) => item_of(name@, *v) == Some(it@),
                Err(err) => item_of(name@, *v) is None && err == IngestError::MalformedArtifact(
                    ArtifactKind::Usage,
                ),
            },
    {
        let malformed = IngestError::MalformedArtifact(ArtifactKind::Usage);
        match v {
            JsonValue::Obj(fields) => {
                let total_time = match get_num_text(
                    fields,
                    &String::from_str("total_time_seconds"),
                ) {
                    Some(t) => t,
                    None => {
                        return Err(malformed);
                    },
                };
                let n = fields.len();
                let mut events: Vec<UsageEvent> = Vec::new();
                let mut i: usize = 0;
                while i < n
                    invariant
                        i <= n,
                        ({
                            match events_from(fields@, i as int) {
                                Some(rest) => events_from(fields@, 0) == Some(
                                    events.deep_view() + rest,
                                ),
                                None => events_from(fields@, 0) is None,
                            }
                        }),
                    decreases n - i,
                {
                    let ghost acc0 = events.deep_view();
                    let pair = &fields[i];
                    if !time_key(&pair.0) {
                        match UsageEvent::from_value(pair.0.clone(), &pair.1) {
                            Ok(e) => {
                                events.push(e);
                                proof {
                                    assert(events.deep_view() =~= acc0.push(e@));
                                    if events_from(fields@, i + 1) is Some {
                                        let rest = events_from(fields@, i + 1)->0;
                                        assert(acc0 + (seq![e@] + rest) =~= acc0.push(e@) + rest);
                                    }
                                }
                            },
                            Err(_) => {
                                return Err(malformed);
                            },
                        }
                    }
                    i = i + 1;
                }
                proof {
                    assert(events.deep_view() + Seq::<UsageEventView>::empty()
                        =~= events.deep_view());
                }
                let (tr, tp, tre) = match find_tracker(&events) {
                    Some(ti) => {
                        let t = &events[ti];
                        (t.requests, t.prompt_tokens, t.response_tokens)
                    },
                    None => {
                        return Err(malformed);
                    },
                };
                Ok(
                    UsagePerItem {
                        name,
                        total_time,
                        total_requests: tr,
                        total_prompt_tokens: tp,
                        total_response_tokens: tre,
                        events,
                    },
                )
            },
            _ => Err(malformed),
        }
    }
}

impl UsageRecord {
    /// Decode the usage artifact from an already-parsed document.
    #[verifier::loop_isolation(false)]
    pub fn from_value(doc: &JsonValue) -> (r: Result<UsageRecord, IngestError>)
        ensures
            match r {
                Ok(u) => usage_of(*doc) == Some((u.total_time_seconds@, u.items.deep_view())),
                Err(err) => usage_of(*doc) is None && err == IngestError::MalformedArtifact(
                    ArtifactKind::Usage,
                ),
            },
    {
        let malformed = IngestError::MalformedArtifact(ArtifactKind::Usage);
        match doc {
            JsonValue::Obj(fields) => {
                let total_time_seconds = match get_num_text(
                    fields,
                    &String::from_str("total_time_seconds"),
                ) {
                    Some(t) => t,
                    None => {
                        return Err(malformed);
                    },
                };
                let n = fields.len();
                let mut items: Vec<UsagePerItem> = Vec::new();
                let mut i: usize = 0;
                while i < n
                    invariant
                        i <= n,
                        ({
                            match items_from(fields@, i as int) {
                                Some(rest) => items_from(fields@, 0) == Some(
                                    items.deep_view() + rest,
                                ),
                                None => items_from(fields@, 0) is None,
                            }
                        }),
                    decreases n - i,
                {
                    let ghost acc0 = items.deep_view();
                    let pair = &fields[i];
                    if !time_key(&pair.0) {
                        match UsagePerItem::from_value(pair.0.clone(), &pair.1) {
                            Ok(it) => {
                                items.push(it);
                                proof {
                                    assert(items.deep_view() =~= acc0.push(it@));
                                    if items_from(fields@, i + 1) is Some {
                                        let rest = items_from(fields@, i + 1)->0;
                                        assert(acc0 + (seq![it@] + rest) =~= acc0.push(it@) + rest);
                                    }
                                }
                            },
                            Err(_) => {
                                return Err(malformed);
                            },
                        }
                    }
                    i = i + 1;
                }
                proof {
                    assert(items.deep_view() + Seq::<UsagePerItemView>::empty()
                        =~= items.deep_view());
                }
                Ok(UsageRecord { total_time_seconds, items })
            },
            _ => Err(malformed),
        }
    }

    /// Decode the usage artifact from JSON text.
    pub fn from_json(s: &str) -> (r: Result<UsageRecord, IngestError>)
        ensures
            json_parse(s@) is None ==> r == Result::<UsageRecord, IngestError>::Err(
                IngestError::MalformedArtifact(ArtifactKind::Usage),
            ),
            json_parse(s@) matches Some(doc) ==> match r {
                Ok(u) => usage_of(doc) == Some((u.total_time_seconds@, u.items.deep_view())),
                Err(err) => usage_of(doc) is None && err == IngestError::MalformedArtifact(
                    ArtifactKind::Usage,
                ),
            },
    {
        match JsonValue::parse(s) {
            Some(doc) => UsageRecord::from_value(&doc),
            None => Err(IngestError::MalformedArtifact(ArtifactKind::Usage)),
        }
    }
}

} // verus!
