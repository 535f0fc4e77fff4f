//! The rules of reconciliation: which records of a zone count, which record
//! answers for a name, and what is to be done about it.

use crate::response::Record;
use crate::response::RecordView;
use crate::text::has_suffix;
use crate::text::same_text;
use vstd::prelude::*;
use vstd::string::StringExecFns;

verus! {

/// The record type that is reconciled.
pub const A_TYPE: &'static str = "A";

/// The time to live sent with an edit of a record that has none.
pub const DEFAULT_TTL: &'static str = "600";

/// Whether `name` is the apex itself or lies under it: `evilexample.com`
/// does not lie under `example.com`.
pub open spec fn in_zone(name: Seq<char>, apex: Seq<char>) -> bool {
    name == apex || (seq!['.'] + apex).is_suffix_of(name)
}

/// Whether a record of the zone is one that reconciliation looks at: a
/// record of type `A` whose name lies in the zone. Both tests compare the
/// characters exactly as the registrar sent them.
pub open spec fn relevant(record: RecordView, apex: Seq<char>) -> bool {
    in_zone(record.name, apex) && record.rec_type == A_TYPE@
}

/// The test `relevant` for a fixed apex.
pub open spec fn relevant_to(apex: Seq<char>) -> spec_fn(RecordView) -> bool {
    |record: RecordView| relevant(record, apex)
}

/// The records of the zone that reconciliation looks at, in the order listed.
pub open spec fn relevant_records(records: Seq<RecordView>, apex: Seq<char>) -> Seq<RecordView> {
    records.filter(relevant_to(apex))
}

/// The first record of the list that carries the given name.
pub open spec fn first_named(list: Seq<RecordView>, name: Seq<char>) -> Option<RecordView>
    decreases list.len(),
{
    if list.len() == 0 {
        None
    } else if list[0].name == name {
        Some(list[0])
    } else {
        first_named(list.drop_first(), name)
    }
}

/// The time to live that an edit of a record carries: its own, or the
/// default where it has none.
pub open spec fn ttl_or_default(ttl: Option<Seq<char>>) -> Seq<char> {
    match ttl {
        Some(t) => t,
        None => DEFAULT_TTL@,
    }
}

/// What is to be done about one name.
#[derive(Debug, Clone, PartialEq, Eq)]
pub enum Decision {
    /// The zone has no record of that name; none is ever created.
    Missing,
    /// The record already holds the observed address.
    Skip,
    /// The record, known by its id, is to be given this content and time to live.
    Edit { id: String, content: String, ttl: String },
}

/// The mathematical value of a [`Decision`].
pub enum DecisionView {
    Missing,
    Skip,
    Edit { id: Seq<char>, content: Seq<char>, ttl: Seq<char> },
}

impl View for Decision {
    type V = DecisionView;

    open spec fn view(&self) -> DecisionView {
        match self {
            Decision::Missing => DecisionView::Missing,
            Decision::Skip => DecisionView::Skip,
            Decision::Edit { id, content, ttl } => DecisionView::Edit {
                id: id@,
                content: content@,
                ttl: ttl@,
            },
        }
    }
}

/// What is to be done about a record, given the observed address: nothing
/// where its content is that address, else an edit that sets it.
pub open spec fn update(record: RecordView, ip: Seq<char>) -> DecisionView {
    if record.content == ip {
        DecisionView::Skip
    } else {
        DecisionView::Edit { id: record.id, content: ip, ttl: ttl_or_default(record.ttl) }
    }
}

/// What is to be done about a name, given the relevant records of its zone
/// and the observed address.
pub open spec fn decide(list: Seq<RecordView>, name: Seq<char>, ip: Seq<char>) -> DecisionView {
    match first_named(list, name) {
        None => DecisionView::Missing,
        Some(record) => update(record, ip),
    }
}

/// Whether `name` is the apex itself or lies under it.
pub fn is_in_zone(name: &str, apex: &str) -> (inside: bool)
    ensures
        inside == in_zone(name@, apex@),
{
    if same_text(name, apex) {
        return true;
    }
    let mut tail = ".".to_owned();
    tail.append(apex);
    proof {
        reveal_strlit(".");
        assert(tail@ =~= seq!['.'] + apex@);
    }
    has_suffix(name, tail.as_str())
}

/// Whether a record of the zone is one that reconciliation looks at.
pub fn is_relevant(record: &Record, apex: &str) -> (keep: bool)
    ensures
        keep == relevant(record@, apex@),
{
    same_text(record.rec_type.as_str(), A_TYPE) && is_in_zone(record.name.as_str(), apex)
}

/// Keeps the records that reconciliation looks at, in the order listed.
pub fn filter_records(records: &Vec<Record>, apex: &str) -> (list: Vec<Record>)
    ensures
        list.deep_view() == relevant_records(records.deep_view(), apex@),
{
    let mut list: Vec<Record> = Vec::new();
    let ghost all = records.deep_view();
    let ghost keep = relevant_to(apex@);
    let mut i: usize = 0;
    assert(all.take(0) =~= Seq::empty());
    assert(list.deep_view() =~= Seq::empty());
    proof {
        reveal(Seq::filter);
    }
    while i < records.len()
        invariant
            i <= records.len(),
            all == records.deep_view(),
            keep == relevant_to(apex@),
            list.deep_view() == all.take(i as int).filter(keep),
        decreases records.len() - i,
    {
        let ghost before = list.deep_view();
        proof {
            all.lemma_take_succ_push(i as int);
            all.take(i as int).lemma_filter_push(all[i as int], keep);
        }
        if is_relevant(&records[i], apex) {
            list.push(records[i].clone());
            assert(list.deep_view() =~= before.push(all[i as int]));
        }
        i += 1;
    }
    assert(all.take(records.len() as int) =~= all);
    list
}

/// Finds the first record of the list that carries the given name.
pub fn find_record<'a>(list: &'a Vec<Record>, name: &str) -> (found: Option<&'a Record>)
    ensures
        found.deep_view() == first_named(list.deep_view(), name@),
{
    let ghost all = list.deep_view();
    let mut i: usize = 0;
    assert(all.skip(0) =~= all);
    while i < list.len()
        invariant
            i <= list.len(),
            all == list.deep_view(),
            first_named(all, name@) == first_named(all.skip(i as int), name@),
        decreases list.len() - i,
    {
        if same_text(list[i].name.as_str(), name) {
            return Some(&list[i]);
        }
        assert(all.skip(i as int).drop_first() =~= all.skip(i + 1));
        i += 1;
    }
    None
}

/// Says what is to be done about a record, given the observed address.
pub fn update_record(record: &Record, ip: &str) -> (decision: Decision)
    ensures
        decision@ == update(record@, ip@),
{
    if same_text(record.content.as_str(), ip) {
        Decision::Skip
    } else {
        let ttl = match &record.ttl {
            Some(t) => t.clone(),
            None => DEFAULT_TTL.to_owned(),
        };
        Decision::Edit { id: record.id.clone(), content: ip.to_owned(), ttl }
    }
}

/// Says what is to be done about a name, given the relevant records of its
/// zone and the observed address.
pub fn decide_target(list: &Vec<Record>, name: &str, ip: &str) -> (decision: Decision)
    ensures
        decision@ == decide(list.deep_view(), name@, ip@),
{
    match find_record(list, name) {
        None => Decision::Missing,
        Some(record) => update_record(record, ip),
    }
}

/// The record found for a name carries that name and is one of the list.
pub proof fn lemma_first_named_is_listed(list: Seq<RecordView>, name: Seq<char>)
    requires
        first_named(list, name) is Some,
    ensures
        first_named(list, name)->0.name == name,
        exists|k: int| 0 <= k < list.len() && #[trigger] list[k] == first_named(list, name)->0,
    decreases list.len(),
{
    if list[0].name == name {
        assert(list[0] == first_named(list, name)->0);
    } else {
        lemma_first_named_is_listed(list.drop_first(), name);
        let k = choose|k: int|
            0 <= k < list.drop_first().len() && #[trigger] list.drop_first()[k] == first_named(
                list,
                name,
            )->0;
        assert(list[k + 1] == first_named(list, name)->0);
    }
}

/// The relevant records of a zone are relevant, each of them.
pub proof fn lemma_relevant_records(records: Seq<RecordView>, apex: Seq<char>)
    ensures
        forall|k: int|
            0 <= k < relevant_records(records, apex).len() ==> relevant(
                #[trigger] relevant_records(records, apex)[k],
                apex,
            ),
{
    assert forall|k: int| 0 <= k < relevant_records(records, apex).len() implies relevant(
        #[trigger] relevant_records(records, apex)[k],
        apex,
    ) by {
        records.lemma_filter_pred(relevant_to(apex), k);
    }
}

} // verus!
