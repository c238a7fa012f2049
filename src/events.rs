use vstd::prelude::*;
use crate::datetime::{text_view, DateTime};
use crate::error::LegistarError;
use crate::event_item::EventItem;
use crate::fields::{
    opt_string_field, opt_timestamp_field, read_opt_string, read_opt_timestamp, read_string,
    read_timestamp, read_u32, read_u64, string_field, timestamp_field, u32_field, u64_field,
    FieldError,
};
use crate::json::{
    in_names, is_key, json_of_text, keys_distinct, lemma_lookup_without, lemma_without_distinct, lookup, parse_json, remove_key,
    residual, without, Json,
};
use crate::merge::{
    is_merged, law_readable_fields_merge, merge_date_time, merged_text, split_fields_readable,
    without_split, DATE_FIELD, DATE_TIME_FIELD, TIME_FIELD,
};
use crate::records::{
    lemma_list_check_ok, list_bound, list_check, list_outcome, record_ok, records_from_list,
    FromRecord,
};

verus! {

pub const EVENT_ID: &'static str = "EventId";

pub const BODY_NAME: &'static str = "EventBodyName";

pub const LAST_MODIFIED: &'static str = "EventLastModifiedUtc";

pub const AGENDA_FILE: &'static str = "EventAgendaFile";

pub const AGENDA_PUBLISHED: &'static str = "EventAgendaLastPublishedUTC";

pub const MEDIA: &'static str = "EventMedia";

/// The field that the list endpoint leaves empty and the nested fetch fills.
pub const ITEMS: &'static str = "EventItems";

/// The wire fields that a meeting binds to attributes.
pub open spec fn event_names() -> Seq<&'static str> {
    seq![
        EVENT_ID,
        BODY_NAME,
        DATE_TIME_FIELD,
        LAST_MODIFIED,
        AGENDA_FILE,
        AGENDA_PUBLISHED,
        MEDIA,
        ITEMS,
    ]
}

/// A meeting of a legislative body.
#[derive(Debug)]
pub struct Event {
    pub id: u32,
    pub body_name: String,
    pub date_time: DateTime,
    pub last_modified: Option<DateTime>,
    pub agenda_file: Option<String>,
    pub agenda_last_updated: Option<DateTime>,
    pub media: Option<String>,
    pub items: Vec<EventItem>,
    /// Every wire field that no attribute binds, as it came.
    pub extra: Vec<(String, Json)>,
}

/// The first field that cannot be bound, of a merged record without its item
/// field and of the value of that field.
pub open spec fn parts_check(record: Seq<(String, Json)>, items: Option<Json>) -> Result<
    (),
    FieldError,
> {
    if u32_field(record, EVENT_ID) is Err {
        Err(u32_field(record, EVENT_ID)->Err_0)
    } else if string_field(record, BODY_NAME) is Err {
        Err(string_field(record, BODY_NAME)->Err_0)
    } else if timestamp_field(record, DATE_TIME_FIELD) is Err {
        Err(timestamp_field(record, DATE_TIME_FIELD)->Err_0)
    } else if opt_timestamp_field(record, LAST_MODIFIED) is Err {
        Err(opt_timestamp_field(record, LAST_MODIFIED)->Err_0)
    } else if opt_string_field(record, AGENDA_FILE) is Err {
        Err(opt_string_field(record, AGENDA_FILE)->Err_0)
    } else if opt_timestamp_field(record, AGENDA_PUBLISHED) is Err {
        Err(opt_timestamp_field(record, AGENDA_PUBLISHED)->Err_0)
    } else if opt_string_field(record, MEDIA) is Err {
        Err(opt_string_field(record, MEDIA)->Err_0)
    } else {
        items_check(items)
    }
}

/// The item field is absent, null, or an array of agenda items that can all be
/// bound.
pub open spec fn items_check(items: Option<Json>) -> Result<(), FieldError> {
    match items {
        None => Ok(()),
        Some(Json::Null) => Ok(()),
        Some(Json::Array(v)) => match list_check::<EventItem>(v@) {
            Ok(_) => Ok(()),
            Err(LegistarError::Field { index: _, cause: c }) => Err(c),
            Err(_) => Err(FieldError::WrongType(ITEMS)),
        },
        Some(_) => Err(FieldError::WrongType(ITEMS)),
    }
}

impl Event {
    /// Whether `self` is what a merged record without its item field, and the
    /// value of that field, bind to.
    pub open spec fn bound_from_parts(&self, record: Seq<(String, Json)>, items: Option<Json>) -> bool {
        &&& u32_field(record, EVENT_ID) == Ok::<u32, FieldError>(self.id)
        &&& string_field(record, BODY_NAME) == Ok::<Seq<char>, FieldError>(self.body_name@)
        &&& timestamp_field(record, DATE_TIME_FIELD) == Ok::<DateTime, FieldError>(self.date_time)
        &&& opt_timestamp_field(record, LAST_MODIFIED) == Ok::<Option<DateTime>, FieldError>(
            self.last_modified,
        )
        &&& opt_string_field(record, AGENDA_FILE) == Ok::<Option<Seq<char>>, FieldError>(
            text_view(self.agenda_file),
        )
        &&& opt_timestamp_field(record, AGENDA_PUBLISHED) == Ok::<Option<DateTime>, FieldError>(
            self.agenda_last_updated,
        )
        &&& opt_string_field(record, MEDIA) == Ok::<Option<Seq<char>>, FieldError>(
            text_view(self.media),
        )
        &&& match items {
            Some(Json::Array(v)) => list_bound(self.items@, v@),
            _ => self.items@.len() == 0,
        }
        &&& self.extra@ == without(record, in_names(event_names()))
    }

    /// Binds a merged record that holds no item field, and the value of the
    /// item field, to a meeting.
    pub fn from_parts(record: Vec<(String, Json)>, items: Option<Json>) -> (r: Result<
        Event,
        FieldError,
    >)
        ensures
            match parts_check(record@, items) {
                Err(e) => r matches Err(x) && x == e,
                Ok(_) => r matches Ok(ev) && ev.bound_from_parts(record@, items),
            },
    {
        let id = match read_u32(&record, EVENT_ID) {
            Ok(v) => v,
            Err(x) => return Err(x),
        };
        let body_name = match read_string(&record, BODY_NAME) {
            Ok(v) => v,
            Err(x) => return Err(x),
        };
        let date_time = match read_timestamp(&record, DATE_TIME_FIELD) {
            Ok(v) => v,
            Err(x) => return Err(x),
        };
        let last_modified = match read_opt_timestamp(&record, LAST_MODIFIED) {
            Ok(v) => v,
            Err(x) => return Err(x),
        };
        let agenda_file = match read_opt_string(&record, AGENDA_FILE) {
            Ok(v) => v,
            Err(x) => return Err(x),
        };
        let agenda_last_updated = match read_opt_timestamp(&record, AGENDA_PUBLISHED) {
            Ok(v) => v,
            Err(x) => return Err(x),
        };
        let media = match read_opt_string(&record, MEDIA) {
            Ok(v) => v,
            Err(x) => return Err(x),
        };
        let items = match items {
            None => Vec::new(),
            Some(Json::Null) => Vec::new(),
            Some(Json::Array(v)) => match records_from_list::<EventItem>(v) {
                Ok(list) => list,
                Err(LegistarError::Field { index: _, cause: c }) => return Err(c),
                Err(_) => return Err(FieldError::WrongType(ITEMS)),
            },
            Some(_) => return Err(FieldError::WrongType(ITEMS)),
        };
        let names = [
            EVENT_ID,
            BODY_NAME,
            DATE_TIME_FIELD,
            LAST_MODIFIED,
            AGENDA_FILE,
            AGENDA_PUBLISHED,
            MEDIA,
            ITEMS,
        ];
        assert(names@ == event_names());
        let extra = residual(record, &names);
        Ok(
            Event {
                id,
                body_name,
                date_time,
                last_modified,
                agenda_file,
                agenda_last_updated,
                media,
                items,
                extra,
            },
        )
    }
}

impl FromRecord for Event {
    open spec fn record_check(e: Seq<(String, Json)>) -> Result<(), FieldError> {
        parts_check(without(e, is_key(ITEMS@)), lookup(e, ITEMS@))
    }

    open spec fn bound_from(&self, e: Seq<(String, Json)>) -> bool {
        self.bound_from_parts(without(e, is_key(ITEMS@)), lookup(e, ITEMS@))
    }

    fn from_record(entries: Vec<(String, Json)>) -> (r: Result<Event, FieldError>) {
        let mut record = entries;
        let items = remove_key(&mut record, ITEMS);
        Event::from_parts(record, items)
    }
}

/// The first record of a list whose date and time cannot be merged, or the
/// first element that is not a record.
pub open spec fn merge_check(v: Seq<Json>) -> Result<(), LegistarError>
    decreases v.len(),
{
    if v.len() == 0 {
        Ok(())
    } else {
        match merge_check(v.drop_last()) {
            Err(e) => Err(e),
            Ok(_) => match v.last() {
                Json::Object(e) => match merged_text(e@) {
                    Ok(_) => Ok(()),
                    Err(reason) => Err(
                        LegistarError::Merge { index: (v.len() - 1) as usize, reason: reason },
                    ),
                },
                _ => Err(LegistarError::NotAnObject { index: (v.len() - 1) as usize }),
            },
        }
    }
}

/// Each merged record is the merge of the record at its place.
pub open spec fn merge_bound(out: Seq<Json>, v: Seq<Json>) -> bool {
    &&& out.len() == v.len()
    &&& forall|i: int|
        0 <= i < v.len() ==> (#[trigger] v[i] matches Json::Object(e) && out[i] matches Json::Object(
            m,
        ) && merged_text(e@) matches Ok(t) && is_merged(m@, e@, t))
}

proof fn lemma_merge_check_error(v: Seq<Json>, i: int)
    requires
        0 <= i <= v.len(),
        merge_check(v.subrange(0, i)) is Err,
    ensures
        merge_check(v) == merge_check(v.subrange(0, i)),
    decreases v.len() - i,
{
    if i < v.len() {
        assert(v.subrange(0, i + 1).drop_last() =~= v.subrange(0, i));
        lemma_merge_check_error(v, i + 1);
    } else {
        assert(v.subrange(0, i) =~= v);
    }
}

/// Merges the date and time of every record of a list, in order; the first
/// element that is not a record, or whose fields cannot be merged, fails the
/// whole list.
pub fn merge_records(list: Vec<Json>) -> (r: Result<Vec<Json>, LegistarError>)
    ensures
        match merge_check(list@) {
            Err(e) => r matches Err(x) && x == e,
            Ok(_) => r matches Ok(out) && merge_bound(out@, list@),
        },
{
    let ghost orig = list@;
    let n: usize = list.len();
    let mut v = list;
    let mut out: Vec<Json> = Vec::new();
    let mut i: usize = 0;
    while v.len() > 0
        invariant
            orig == list@,
            orig.len() == n,
            i + v@.len() == n,
            v@ == orig.subrange(i as int, n as int),
            merge_check(orig.subrange(0, i as int)) is Ok,
            out@.len() == i,
            forall|j: int|
                0 <= j < i ==> (#[trigger] orig[j] matches Json::Object(e) && out@[j] matches Json::Object(
                    m,
                ) && merged_text(e@) matches Ok(t) && is_merged(m@, e@, t)),
        decreases v@.len(),
    {
        let x = v.remove(0);
        proof {
            assert(orig.subrange(0, i + 1).drop_last() =~= orig.subrange(0, i as int));
            assert(orig.subrange(0, i + 1).last() == x);
        }
        match x {
            Json::Object(e) => match merge_date_time(e) {
                Ok(m) => {
                    out.push(Json::Object(m));
                },
                Err(reason) => {
                    proof {
                        lemma_merge_check_error(orig, i + 1);
                    }
                    return Err(LegistarError::Merge { index: i, reason });
                },
            },
            _ => {
                proof {
                    lemma_merge_check_error(orig, i + 1);
                }
                return Err(LegistarError::NotAnObject { index: i });
            },
        }
        i = i + 1;
        assert(v@ =~= orig.subrange(i as int, n as int));
    }
    assert(orig.subrange(0, n as int) =~= orig);
    Ok(out)
}

/// What binding a list response of meetings gives, with the agenda items that
/// the response itself holds.
pub open spec fn events_outcome(doc: Json, r: Result<Vec<Event>, LegistarError>) -> bool {
    match doc {
        Json::Array(v) => match merge_check(v@) {
            Err(e) => r matches Err(x) && x == e,
            Ok(_) => exists|m: Seq<Json>| #[trigger] merge_bound(m, v@) && list_outcome(m, r),
        },
        _ => r matches Err(x) && x == LegistarError::NotAnArray,
    }
}

/// Binds a parsed list response of meetings: each record has its date and
/// time merged, then is bound with the agenda items that it holds.
pub fn events_from_json(doc: Json) -> (r: Result<Vec<Event>, LegistarError>)
    ensures
        events_outcome(doc, r),
{
    match doc {
        Json::Array(v) => match merge_records(v) {
            Ok(merged) => {
                let r = records_from_list::<Event>(merged);
                assert(merge_bound(merged@, v@) && list_outcome(merged@, r));
                r
            },
            Err(e) => Err(e),
        },
        _ => Err(LegistarError::NotAnArray),
    }
}

/// Parses a list response of meetings and binds it as `events_from_json`
/// does; a text that is not JSON fails with `InvalidJson`.
pub fn event_deserialize(text: &str) -> (r: Result<Vec<Event>, LegistarError>)
    ensures
        match json_of_text(text@) {
            None => r matches Err(x) && x == LegistarError::InvalidJson,
            Some(doc) => events_outcome(doc, r),
        },
{
    match parse_json(text) {
        Ok(doc) => events_from_json(doc),
        Err(_) => Err(LegistarError::InvalidJson),
    }
}

/// A meeting whose date and time are merged and whose agenda items are still
/// to be fetched: `id` keys the fetch, `record` holds every other field.
#[derive(Debug)]
pub struct PendingEvent {
    pub id: u64,
    pub record: Vec<(String, Json)>,
}

impl FromRecord for PendingEvent {
    open spec fn record_check(e: Seq<(String, Json)>) -> Result<(), FieldError> {
        match u64_field(without(e, is_key(ITEMS@)), EVENT_ID) {
            Ok(_) => Ok(()),
            Err(c) => Err(c),
        }
    }

    open spec fn bound_from(&self, e: Seq<(String, Json)>) -> bool {
        &&& self.record@ == without(e, is_key(ITEMS@))
        &&& u64_field(self.record@, EVENT_ID) == Ok::<u64, FieldError>(self.id)
    }

    fn from_record(entries: Vec<(String, Json)>) -> (r: Result<PendingEvent, FieldError>) {
        let mut record = entries;
        let _ = remove_key(&mut record, ITEMS);
        match read_u64(&record, EVENT_ID) {
            Ok(id) => Ok(PendingEvent { id, record }),
            Err(c) => Err(c),
        }
    }
}

/// What the first half of enriching a list response gives.
pub open spec fn pending_outcome(doc: Json, r: Result<Vec<PendingEvent>, LegistarError>) -> bool {
    match doc {
        Json::Array(v) => match merge_check(v@) {
            Err(e) => r matches Err(x) && x == e,
            Ok(_) => exists|m: Seq<Json>| #[trigger] merge_bound(m, v@) && list_outcome(m, r),
        },
        _ => r matches Err(x) && x == LegistarError::NotAnArray,
    }
}

/// Readies a parsed list response of meetings for the nested fetches: each
/// record has its date and time merged and its empty item field dropped, and
/// its identifier read.
pub fn pending_from_json(doc: Json) -> (r: Result<Vec<PendingEvent>, LegistarError>)
    ensures
        pending_outcome(doc, r),
{
    match doc {
        Json::Array(v) => match merge_records(v) {
            Ok(merged) => {
                let r = records_from_list::<PendingEvent>(merged);
                assert(merge_bound(merged@, v@) && list_outcome(merged@, r));
                r
            },
            Err(e) => Err(e),
        },
        _ => Err(LegistarError::NotAnArray),
    }
}

/// Parses a list response of meetings and readies it as `pending_from_json`
/// does; a text that is not JSON fails with `InvalidJson`.
pub fn deserialize(text: &str) -> (r: Result<Vec<PendingEvent>, LegistarError>)
    ensures
        match json_of_text(text@) {
            None => r matches Err(x) && x == LegistarError::InvalidJson,
            Some(doc) => pending_outcome(doc, r),
        },
{
    match parse_json(text) {
        Ok(doc) => pending_from_json(doc),
        Err(_) => Err(LegistarError::InvalidJson),
    }
}

/// The first meeting that cannot be bound once given its fetched agenda items.
pub open spec fn attach_check(p: Seq<PendingEvent>, l: Seq<Json>) -> Result<(), LegistarError>
    decreases p.len(),
{
    if p.len() == 0 || l.len() == 0 {
        Ok(())
    } else {
        match attach_check(p.drop_last(), l.drop_last()) {
            Err(e) => Err(e),
            Ok(_) => match parts_check(p.last().record@, Some(l.last())) {
                Ok(_) => Ok(()),
                Err(c) => Err(LegistarError::Field { index: (p.len() - 1) as usize, cause: c }),
            },
        }
    }
}

/// What attaching fetched item lists to pending meetings gives: one list for
/// each meeting, at its place, or `ItemCount`.
pub open spec fn attach_outcome(
    p: Seq<PendingEvent>,
    l: Seq<Json>,
    r: Result<Vec<Event>, LegistarError>,
) -> bool {
    if p.len() != l.len() {
        r matches Err(x) && x == LegistarError::ItemCount
    } else {
        match attach_check(p, l) {
            Err(e) => r matches Err(x) && x == e,
            Ok(_) => r matches Ok(out) && out@.len() == p.len() && forall|i: int|
                0 <= i < p.len() ==> #[trigger] out@[i].bound_from_parts(p[i].record@, Some(l[i])),
        }
    }
}

proof fn lemma_attach_check_error(p: Seq<PendingEvent>, l: Seq<Json>, i: int)
    requires
        p.len() == l.len(),
        0 <= i <= p.len(),
        attach_check(p.subrange(0, i), l.subrange(0, i)) is Err,
    ensures
        attach_check(p, l) == attach_check(p.subrange(0, i), l.subrange(0, i)),
    decreases p.len() - i,
{
    if i < p.len() {
        assert(p.subrange(0, i + 1).drop_last() =~= p.subrange(0, i));
        assert(l.subrange(0, i + 1).drop_last() =~= l.subrange(0, i));
        lemma_attach_check_error(p, l, i + 1);
    } else {
        assert(p.subrange(0, i) =~= p);
        assert(l.subrange(0, i) =~= l);
    }
}

/// Completes pending meetings with the agenda items fetched for each, taken in
/// the same order, and binds them.
pub fn attach_items(pending: Vec<PendingEvent>, lists: Vec<Json>) -> (r: Result<
    Vec<Event>,
    LegistarError,
>)
    ensures
        attach_outcome(pending@, lists@, r),
{
    if pending.len() != lists.len() {
        return Err(LegistarError::ItemCount);
    }
    let ghost op = pending@;
    let ghost ol = lists@;
    let n: usize = pending.len();
    let mut p = pending;
    let mut l = lists;
    let mut out: Vec<Event> = Vec::new();
    let mut i: usize = 0;
    while p.len() > 0
        invariant
            op == pending@,
            ol == lists@,
            op.len() == n,
            ol.len() == n,
            i + p@.len() == n,
            i + l@.len() == n,
            p@ == op.subrange(i as int, n as int),
            l@ == ol.subrange(i as int, n as int),
            attach_check(op.subrange(0, i as int), ol.subrange(0, i as int)) is Ok,
            out@.len() == i,
            forall|j: int|
                0 <= j < i ==> #[trigger] out@[j].bound_from_parts(op[j].record@, Some(ol[j])),
        decreases p@.len(),
    {
        let pe = p.remove(0);
        let items = l.remove(0);
        proof {
            assert(op.subrange(0, i + 1).drop_last() =~= op.subrange(0, i as int));
            assert(ol.subrange(0, i + 1).drop_last() =~= ol.subrange(0, i as int));
            assert(op.subrange(0, i + 1).last() == pe);
            assert(ol.subrange(0, i + 1).last() == items);
        }
        match Event::from_parts(pe.record, Some(items)) {
            Ok(ev) => {
                out.push(ev);
            },
            Err(c) => {
                proof {
                    lemma_attach_check_error(op, ol, i + 1);
                }
                return Err(LegistarError::Field { index: i, cause: c });
            },
        }
        i = i + 1;
        assert(p@ =~= op.subrange(i as int, n as int));
        assert(l@ =~= ol.subrange(i as int, n as int));
    }
    assert(op.subrange(0, n as int) =~= op);
    assert(ol.subrange(0, n as int) =~= ol);
    Ok(out)
}

/// The values that serde_json reads from the fetched item texts, in order, or
/// the place of the first text that it refuses.
pub open spec fn parsed_texts(t: Seq<String>) -> Result<Seq<Json>, usize>
    decreases t.len(),
{
    if t.len() == 0 {
        Ok(Seq::empty())
    } else {
        match parsed_texts(t.drop_last()) {
            Err(i) => Err(i),
            Ok(s) => match json_of_text(t.last()@) {
                None => Err((t.len() - 1) as usize),
                Some(j) => Ok(s.push(j)),
            },
        }
    }
}

proof fn lemma_parsed_texts_error(t: Seq<String>, i: int)
    requires
        0 <= i <= t.len(),
        parsed_texts(t.subrange(0, i)) is Err,
    ensures
        parsed_texts(t) == parsed_texts(t.subrange(0, i)),
    decreases t.len() - i,
{
    if i < t.len() {
        assert(t.subrange(0, i + 1).drop_last() =~= t.subrange(0, i));
        lemma_parsed_texts_error(t, i + 1);
    } else {
        assert(t.subrange(0, i) =~= t);
    }
}

/// Parses the fetched item lists, one text for each pending meeting in the
/// same order, and attaches them as `attach_items` does. A count that differs
/// from the number of meetings fails with `ItemCount`; a text that is not JSON
/// fails with `ItemsNotJson`, naming the place of its meeting.
pub fn attach_item_texts(pending: Vec<PendingEvent>, texts: &Vec<String>) -> (r: Result<
    Vec<Event>,
    LegistarError,
>)
    ensures
        pending@.len() != texts@.len() ==> (r matches Err(x) && x == LegistarError::ItemCount),
        pending@.len() == texts@.len() ==> match parsed_texts(texts@) {
            Err(i) => r matches Err(x) && x == LegistarError::ItemsNotJson { index: i },
            Ok(lists) => attach_outcome(pending@, lists, r),
        },
{
    if pending.len() != texts.len() {
        return Err(LegistarError::ItemCount);
    }
    let mut lists: Vec<Json> = Vec::new();
    let mut i: usize = 0;
    while i < texts.len()
        invariant
            i <= texts@.len(),
            pending@.len() == texts@.len(),
            parsed_texts(texts@.subrange(0, i as int)) == Ok::<Seq<Json>, usize>(lists@),
        decreases texts@.len() - i,
    {
        proof {
            assert(texts@.subrange(0, i + 1).drop_last() =~= texts@.subrange(0, i as int));
        }
        match parse_json(texts[i].as_str()) {
            Ok(doc) => {
                lists.push(doc);
            },
            Err(_) => {
                proof {
                    lemma_parsed_texts_error(texts@, i + 1);
                }
                return Err(LegistarError::ItemsNotJson { index: i });
            },
        }
        i = i + 1;
    }
    assert(texts@.subrange(0, i as int) =~= texts@);
    attach_items(pending, lists)
}

/// Every wire field that a meeting does not bind stands unchanged among its
/// residual fields, and no field that it binds stands there; where the record
/// has distinct keys, so does the residual map.
pub proof fn law_event_residual(ev: Event, e: Seq<(String, Json)>, k: Seq<char>)
    requires
        ev.bound_from(e),
    ensures
        in_names(event_names())(k) ==> lookup(ev.extra@, k) is None,
        !in_names(event_names())(k) ==> lookup(ev.extra@, k) == lookup(e, k),
        keys_distinct(e) ==> keys_distinct(ev.extra@),
{
    lemma_without_distinct(e, is_key(ITEMS@));
    lemma_without_distinct(without(e, is_key(ITEMS@)), in_names(event_names()));
    lemma_lookup_without(without(e, is_key(ITEMS@)), in_names(event_names()), k);
    lemma_lookup_without(e, is_key(ITEMS@), k);
    assert(event_names()[7]@ == ITEMS@);
}

/// A list response of meeting records readies one nested fetch for each
/// record, in the order of the records, each keyed by that record's
/// identifier.
pub proof fn law_one_fetch_per_record(doc: Json, pending: Vec<PendingEvent>)
    requires
        pending_outcome(doc, Ok(pending)),
    ensures
        doc matches Json::Array(v) && pending@.len() == v@.len() && forall|i: int|
            0 <= i < v@.len() ==> (#[trigger] v@[i] matches Json::Object(e) && u64_field(
                e@,
                EVENT_ID,
            ) == Ok::<u64, FieldError>(pending@[i].id)),
{
    let v = doc->Array_0;
    let m = choose|m: Seq<Json>|
        #[trigger] merge_bound(m, v@) && list_outcome(m, Ok::<Vec<PendingEvent>, LegistarError>(pending));
    assert forall|i: int| 0 <= i < v@.len() implies (#[trigger] v@[i] matches Json::Object(e)
        && u64_field(e@, EVENT_ID) == Ok::<u64, FieldError>(pending@[i].id)) by {
        let e = v@[i]->Object_0@;
        lemma_id_survives_merge(e, m[i]->Object_0@, merged_text(e)->Ok_0);
    }
}

/// Merging and dropping the item field leave the identifier as it was.
proof fn lemma_id_survives_merge(e: Seq<(String, Json)>, m: Seq<(String, Json)>, text: Seq<char>)
    requires
        is_merged(m, e, text),
    ensures
        lookup(without(m, is_key(ITEMS@)), EVENT_ID@) == lookup(e, EVENT_ID@),
{
    reveal_strlit("EventId");
    reveal_strlit("EventItems");
    reveal_strlit("EventDate");
    reveal_strlit("EventTime");
    reveal_strlit("EventDateTime");
    assert(EVENT_ID@.len() == 7);
    assert(ITEMS@.len() == 10);
    assert(DATE_FIELD@.len() == 9);
    assert(TIME_FIELD@.len() == 9);
    assert(DATE_TIME_FIELD@.len() == 13);
    let w1 = without(e, is_key(DATE_FIELD@));
    let w2 = without(w1, is_key(TIME_FIELD@));
    lemma_lookup_without(m, is_key(ITEMS@), EVENT_ID@);
    assert(m.drop_last() == without_split(e));
    lemma_lookup_without(w2, is_key(DATE_TIME_FIELD@), EVENT_ID@);
    lemma_lookup_without(w1, is_key(TIME_FIELD@), EVENT_ID@);
    lemma_lookup_without(e, is_key(DATE_FIELD@), EVENT_ID@);
}

/// The element is a meeting record whose date and time fields are readable
/// and whose identifier is an unsigned integer.
pub open spec fn ready_record(j: Json) -> bool {
    match j {
        Json::Object(e) => split_fields_readable(e@) && u64_field(e@, EVENT_ID) is Ok,
        _ => false,
    }
}

proof fn lemma_merge_check_ok(v: Seq<Json>)
    requires
        forall|i: int| 0 <= i < v.len() ==> ready_record(#[trigger] v[i]),
    ensures
        merge_check(v) is Ok,
    decreases v.len(),
{
    if v.len() > 0 {
        let p = v.drop_last();
        assert forall|i: int| 0 <= i < p.len() implies ready_record(#[trigger] p[i]) by {
            assert(p[i] == v[i]);
        }
        lemma_merge_check_ok(p);
        assert(ready_record(v[v.len() - 1]));
        law_readable_fields_merge(v.last()->Object_0@);
    }
}

/// A list response whose records all have readable date and time fields and
/// an unsigned identifier is always readied for its nested fetches: one for
/// each record, in order, keyed by that record's identifier.
pub proof fn law_ready_records_are_fetched(doc: Json, r: Result<Vec<PendingEvent>, LegistarError>)
    requires
        doc matches Json::Array(v) && forall|i: int|
            0 <= i < v@.len() ==> ready_record(#[trigger] v@[i]),
        pending_outcome(doc, r),
    ensures
        r is Ok,
{
    let v = doc->Array_0;
    lemma_merge_check_ok(v@);
    let m = choose|m: Seq<Json>| #[trigger] merge_bound(m, v@) && list_outcome(m, r);
    assert forall|i: int| 0 <= i < m.len() implies record_ok::<PendingEvent>(#[trigger] m[i]) by {
        assert(ready_record(v@[i]));
        let e = v@[i]->Object_0@;
        lemma_id_survives_merge(e, m[i]->Object_0@, merged_text(e)->Ok_0);
    }
    lemma_list_check_ok::<PendingEvent>(m);
}

/// Attaching keeps places: the meeting at each place is bound from the pending
/// record and the fetched list at that place, and keeps its identifier.
pub proof fn law_attach_keeps_order(p: Seq<PendingEvent>, l: Seq<Json>, out: Vec<Event>)
    requires
        forall|i: int|
            0 <= i < p.len() ==> u64_field(#[trigger] p[i].record@, EVENT_ID) == Ok::<
                u64,
                FieldError,
            >(p[i].id),
        attach_outcome(p, l, Ok(out)),
    ensures
        p.len() == l.len(),
        out@.len() == p.len(),
        forall|i: int|
            0 <= i < p.len() ==> (#[trigger] out@[i]).id as u64 == p[i].id && out@[i].bound_from_parts(
                p[i].record@,
                Some(l[i]),
            ),
{
    assert forall|i: int| 0 <= i < p.len() implies (#[trigger] out@[i]).id as u64 == p[i].id
        && out@[i].bound_from_parts(p[i].record@, Some(l[i])) by {
        assert(out@[i].bound_from_parts(p[i].record@, Some(l[i])));
        assert(u64_field(p[i].record@, EVENT_ID) == Ok::<u64, FieldError>(p[i].id));
    }
}

} // verus!
