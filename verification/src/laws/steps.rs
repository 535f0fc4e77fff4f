//! What holds of every single step of a pass.

use crate::command::EditView as EditBodyView;
use crate::config::ConfigView;
use crate::config::DomainView;
use crate::model::lemma_settled_range_push;
use crate::model::Model;
use crate::model::Phase;
use crate::notice::lemma_absorb_push;
use crate::notice::NoticeView;
use crate::notice::Tally;
use crate::reconcile::first_named;
use crate::reconcile::lemma_first_named_is_listed;
use crate::reconcile::lemma_relevant_records;
use crate::reconcile::relevant;
use crate::reconcile::relevant_records;
use crate::reconcile::ttl_or_default;
use crate::wire::ReplyView;
use crate::wire::RequestView;
use vstd::prelude::*;

verus! {

/// A pass starts in a well-formed state.
pub proof fn lemma_initial_wf(config: ConfigView)
    ensures
        Model::initial(config).wf(),
{
}

/// The search for the next name that needs an edit stays within the names,
/// passes over none that needs one, and stops at one that does.
pub proof fn lemma_next_edit_finds_first(model: Model, from: int)
    requires
        0 <= from <= model.targets().len(),
    ensures
        from <= model.next_edit(from) <= model.targets().len(),
        forall|j: int| from <= j < model.next_edit(from) ==> !(model.decision(j) is Edit),
        model.next_edit(from) < model.targets().len() ==> model.decision(
            model.next_edit(from),
        ) is Edit,
    decreases model.targets().len() - from,
{
    if from < model.targets().len() && !(model.decision(from) is Edit) {
        lemma_next_edit_finds_first(model, from + 1);
    }
}

/// Every name that is settled without an edit is counted once.
pub proof fn lemma_settled_names_counted(model: Model, tally: Tally, from: int, to: int)
    requires
        from <= to,
    ensures
        tally.absorb(model.settled_range(from, to)).total() == tally.total() + (to - from),
        tally.absorb(model.settled_range(from, to)).changed == tally.changed,
    decreases to - from,
{
    if from < to {
        lemma_settled_names_counted(model, tally, from, to - 1);
        lemma_settled_range_push(model, from, to - 1);
        lemma_absorb_push(tally, model.settled_range(from, to - 1), model.settled(to - 1));
    } else {
        assert(model.settled_range(from, to) =~= Seq::empty());
    }
}

/// A step leads to a well-formed state, and a summary that it reports is
/// that of the domain in progress and counts every one of its names.
proof fn lemma_step_settles(model: Model, reply: ReplyView)
    requires
        model.wf(),
    ensures
        model.step(reply).0.wf(),
        forall|k: int|
            0 <= k < model.step(reply).1.notices.len() && (
            #[trigger] model.step(reply).1.notices[k]) is Summary ==> {
                &&& model.phase is AwaitRecords || model.phase is AwaitEdit
                &&& model.step(reply).1.notices[k]->Summary_apex == model.current().name
                &&& model.step(reply).1.notices[k]->tally.total() == model.targets().len()
            },
{
    match model.phase {
        Phase::AwaitRecords => {
            if let Ok(records) = reply.retrieved() {
                let held = Model {
                    list: relevant_records(records, model.current().name),
                    ..model
                };
                lemma_next_edit_finds_first(held, 0);
                lemma_settled_names_counted(held, Tally::zero(), 0, held.next_edit(0));
                lemma_relevant_records(records, model.current().name);
            }
        },
        Phase::AwaitEdit => {
            let notice = model.edited(reply);
            let tally = model.tally.absorb(seq![notice]);
            lemma_absorb_push(model.tally, Seq::empty(), notice);
            assert(Seq::<NoticeView>::empty().push(notice) =~= seq![notice]);
            lemma_next_edit_finds_first(model, model.cursor + 1);
            lemma_settled_names_counted(
                model,
                tally,
                model.cursor + 1,
                model.next_edit(model.cursor + 1),
            );
        },
        _ => {},
    }
}

/// Every step takes a well-formed state to a well-formed state.
pub proof fn lemma_step_keeps_wf(model: Model, reply: ReplyView)
    requires
        model.wf(),
    ensures
        model.step(reply).0.wf(),
{
    lemma_step_settles(model, reply);
}

/// Whenever a step reports the summary of a domain, it is the domain in
/// progress, and the three counts add up to the number of its names.
pub proof fn lemma_summary_counts_every_name(model: Model, reply: ReplyView, k: int)
    requires
        model.wf(),
        0 <= k < model.step(reply).1.notices.len(),
        model.step(reply).1.notices[k] is Summary,
    ensures
        model.phase is AwaitRecords || model.phase is AwaitEdit,
        model.step(reply).1.notices[k]->Summary_apex == model.current().name,
        model.step(reply).1.notices[k]->tally.total() == model.targets().len(),
{
    lemma_step_settles(model, reply);
}

/// Whether an edit is called for in a state that waits for its answer: the
/// name under the cursor has a record among those held, which carries that
/// name, is of type `A` and lies in the zone of the domain in progress; the
/// content of that record is not the observed address; and the edit
/// addresses that record by its id in that zone, with the credentials, the
/// observed address as the new content, and the time to live of the
/// record, or the default where it has none.
pub open spec fn warranted(state: Model, request: RequestView) -> bool {
    let name = state.targets()[state.cursor];
    &&& state.phase is AwaitEdit
    &&& 0 <= state.cursor < state.targets().len()
    &&& first_named(state.list, name) matches Some(record)
    &&& record.name == name
    &&& relevant(record, state.current().name)
    &&& record.content != state.ip
    &&& request == RequestView::Edit {
        apex: state.current().name,
        id: record.id,
        body: EditBodyView {
            apikey: state.config.apikey,
            secretapikey: state.config.secretapikey,
            content: state.ip,
            ttl: ttl_or_default(record.ttl),
        },
    }
}

/// Whenever a step asks for an edit, the edit is called for in the state
/// that the step leads to: no edit goes out for a name whose record holds
/// the observed address, and every edit carries that address and the time
/// to live of the record, or the default.
pub proof fn lemma_edit_only_where_stale(model: Model, reply: ReplyView)
    requires
        model.wf(),
        model.step(reply).1.action is Send,
        model.step(reply).1.action->Send_0 is Edit,
    ensures
        warranted(model.step(reply).0, model.step(reply).1.action->Send_0),
{
    lemma_step_keeps_wf(model, reply);
    let next = model.step(reply).0;
    match model.phase {
        Phase::AwaitRecords => {
            if let Ok(records) = reply.retrieved() {
                let held = Model {
                    list: relevant_records(records, model.current().name),
                    ..model
                };
                lemma_next_edit_finds_first(held, 0);
            }
        },
        Phase::AwaitEdit => {
            lemma_next_edit_finds_first(model, model.cursor + 1);
        },
        _ => {},
    }
    lemma_first_named_is_listed(next.list, next.targets()[next.cursor]);
}

/// The names of a domain come in this order: the apex first where it is
/// enabled, then one name for each configured label, in the order of the
/// labels.
pub proof fn lemma_targets_in_order(domain: DomainView)
    ensures
        domain.update_tld ==> {
            &&& domain.targets().len() == domain.subdomains.len() + 1
            &&& domain.targets()[0] == domain.name
            &&& forall|i: int|
                0 <= i < domain.subdomains.len() ==> #[trigger] domain.targets()[i + 1]
                    == domain.qualified(domain.subdomains[i])
        },
        !domain.update_tld ==> {
            &&& domain.targets().len() == domain.subdomains.len()
            &&& forall|i: int|
                0 <= i < domain.subdomains.len() ==> #[trigger] domain.targets()[i]
                    == domain.qualified(domain.subdomains[i])
        },
{
}

} // verus!
