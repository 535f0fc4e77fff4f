//! Every pass ends: each answer brings it closer to its end.

use crate::config::ConfigView;
use crate::laws::steps::lemma_next_edit_finds_first;
use crate::laws::steps::lemma_step_keeps_wf;
use crate::model::run_from;
use crate::model::Model;
use crate::model::Phase;
use crate::reconcile::relevant_records;
use crate::wire::ReplyView;
use vstd::prelude::*;

verus! {

/// The most answers that the domains from index `d` on can take: for each
/// domain one with its records and one for each of its names.
pub open spec fn work_from(config: ConfigView, d: int) -> nat
    decreases config.domains.len() - d,
{
    if d < 0 || d >= config.domains.len() {
        0
    } else {
        1 + config.domains[d].targets().len() + work_from(config, d + 1)
    }
}

/// The most answers that a pass can still take from a state: none once it
/// has ended.
pub open spec fn work_left(model: Model) -> nat {
    match model.phase {
        Phase::AwaitPing => 1 + work_from(model.config, 0),
        Phase::AwaitRecords => work_from(model.config, model.domain),
        Phase::AwaitEdit => (model.targets().len() - model.cursor) as nat + work_from(
            model.config,
            model.domain + 1,
        ),
        Phase::Finished => 0,
        Phase::Aborted => 0,
    }
}

/// Whether a pass has ended.
pub open spec fn ended(model: Model) -> bool {
    model.phase is Finished || model.phase is Aborted
}

/// Every answer to a pass that has not ended leaves it with less to do.
pub proof fn lemma_step_makes_progress(model: Model, reply: ReplyView)
    requires
        model.wf(),
        !ended(model),
    ensures
        work_left(model.step(reply).0) < work_left(model),
{
    let next = model.step(reply).0;
    match model.phase {
        Phase::AwaitRecords => {
            if let Ok(records) = reply.retrieved() {
                let held = Model {
                    list: relevant_records(records, model.current().name),
                    ..model
                };
                lemma_next_edit_finds_first(held, 0);
                assert(held.targets() == model.targets());
                if next.phase is AwaitEdit {
                    assert(next.targets() == model.targets());
                }
            }
        },
        Phase::AwaitEdit => {
            lemma_next_edit_finds_first(model, model.cursor + 1);
            if next.phase is AwaitEdit {
                assert(next.targets() == model.targets());
            }
        },
        _ => {},
    }
}

/// A pass that has ended stays as it is.
pub proof fn lemma_ended_stays(model: Model, replies: Seq<ReplyView>)
    requires
        ended(model),
    ensures
        run_from(model, replies).state == model,
    decreases replies.len(),
{
    if replies.len() > 0 {
        lemma_ended_stays(model, replies.drop_first());
    }
}

/// A pass ends once it has been given as many answers as it can take at
/// most from the state it is in: it is then finished or aborted.
pub proof fn lemma_pass_ends(model: Model, replies: Seq<ReplyView>)
    requires
        model.wf(),
        replies.len() >= work_left(model),
    ensures
        ended(run_from(model, replies).state),
    decreases replies.len(),
{
    if ended(model) {
        lemma_ended_stays(model, replies);
    } else {
        lemma_step_makes_progress(model, replies[0]);
        lemma_step_keeps_wf(model, replies[0]);
        lemma_pass_ends(model.step(replies[0]).0, replies.drop_first());
    }
}

/// A pass over a configuration takes at most one answer for the ping, one
/// for the records of each domain and one for each name.
pub proof fn lemma_whole_pass_ends(config: ConfigView, replies: Seq<ReplyView>)
    requires
        replies.len() >= 1 + work_from(config, 0),
    ensures
        ended(run_from(Model::initial(config), replies).state),
{
    lemma_pass_ends(Model::initial(config), replies);
}

} // verus!
