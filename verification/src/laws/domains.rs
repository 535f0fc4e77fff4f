//! Every domain is closed exactly once, by the notice that its records call for.

use crate::config::ConfigView;
use crate::laws::steps::lemma_next_edit_finds_first;
use crate::laws::steps::lemma_step_keeps_wf;
use crate::model::fetches;
use crate::model::lemma_settled_range_push;
use crate::model::Model;
use crate::model::Phase;
use crate::model::run_from;
use crate::notice::closing;
use crate::notice::closings;
use crate::notice::line_of;
use crate::notice::NoticeView;
use crate::notice::printed;
use crate::notice::shown_at;
use crate::notice::Tally;
use crate::reconcile::relevant_records;
use crate::wire::ReplyView;
use vstd::prelude::*;

verus! {

/// No notice closes a domain where there is none.
pub(crate) proof fn lemma_closings_empty()
    ensures
        closings(Seq::empty()) == Seq::<NoticeView>::empty(),
{
    reveal(Seq::filter);
}

/// One more notice adds itself to the closing ones where it closes a domain.
pub(crate) proof fn lemma_closings_push(notices: Seq<NoticeView>, notice: NoticeView)
    ensures
        closings(notices.push(notice)) == if notice.closes() {
            closings(notices).push(notice)
        } else {
            closings(notices)
        },
{
    notices.lemma_filter_push(notice, closing());
}

/// The notices about names settled without an edit close no domain.
pub(crate) proof fn lemma_closings_settled(model: Model, lead: Seq<NoticeView>, from: int, to: int)
    requires
        from <= to,
    ensures
        closings(lead + model.settled_range(from, to)) == closings(lead),
    decreases to - from,
{
    if from < to {
        lemma_closings_settled(model, lead, from, to - 1);
        lemma_settled_range_push(model, from, to - 1);
        assert(lead + model.settled_range(from, to) =~= (lead + model.settled_range(
            from,
            to - 1,
        )).push(model.settled(to - 1)));
        lemma_closings_push(lead + model.settled_range(from, to - 1), model.settled(to - 1));
    } else {
        assert(lead + model.settled_range(from, to) =~= lead);
    }
}

/// Turning to the next domain closes none beyond what was said before.
pub(crate) proof fn lemma_closings_open(model: Model, d: int, lead: Seq<NoticeView>)
    ensures
        closings(model.open(d, lead).1.notices) == closings(lead),
{
    if d < model.config.domains.len() {
        lemma_closings_push(lead, NoticeView::DomainStarted { apex: model.config.domains[d].name });
    }
}

/// Settling the names of a domain either stops at an edit, and closes
/// nothing beyond what was said before, or closes the domain with its summary.
proof fn lemma_closings_walk(model: Model, from: int, tally: Tally, lead: Seq<NoticeView>)
    requires
        0 <= from <= model.targets().len(),
    ensures
        ({
            let (next, step) = model.walk(from, tally, lead);
            if next.phase is AwaitEdit {
                &&& next.domain == model.domain
                &&& next.config == model.config
                &&& closings(step.notices) == closings(lead)
            } else {
                &&& next.domain == model.domain + 1
                &&& next.config == model.config
                &&& closings(step.notices).len() == closings(lead).len() + 1
                &&& closings(step.notices).drop_last() == closings(lead)
                &&& closings(step.notices).last() is Summary
                &&& closings(step.notices).last()->Summary_apex == model.current().name
            }
        }),
{
    let stop = model.next_edit(from);
    lemma_next_edit_finds_first(model, from);
    let said = lead + model.settled_range(from, stop);
    lemma_closings_settled(model, lead, from, stop);
    if stop >= model.targets().len() {
        let whole = tally.absorb(model.settled_range(from, stop));
        let summary = NoticeView::Summary { apex: model.current().name, tally: whole };
        lemma_closings_push(said, summary);
        lemma_closings_open(model, model.domain + 1, said.push(summary));
        assert(closings(said).push(summary).drop_last() =~= closings(said));
    }
}

/// How many domains a state has behind it that are not closed yet: one
/// while an edit is out, none otherwise.
pub open spec fn pending(model: Model) -> int {
    if model.phase is AwaitEdit {
        1
    } else {
        0
    }
}

/// What a step closes: nothing, or the domain in progress.
proof fn lemma_step_closes(model: Model, reply: ReplyView)
    requires
        model.wf(),
    ensures
        ({
            let (next, step) = model.step(reply);
            let closed = closings(step.notices);
            &&& next.wf()
            &&& next.config == model.config
            &&& model.phase is AwaitPing ==> closed.len() == 0 && (next.phase is Aborted
                || next.domain == 0 && !(next.phase is AwaitEdit) && !(next.phase is AwaitPing))
            &&& model.phase is Aborted ==> closed.len() == 0 && next.phase is Aborted
            &&& model.phase is Finished ==> closed.len() == 0 && next.phase is Finished
            &&& (model.phase is AwaitRecords || model.phase is AwaitEdit) ==> {
                &&& !(next.phase is AwaitPing) && !(next.phase is Aborted)
                &&& next.phase is AwaitEdit ==> next.domain == model.domain && closed.len() == 0
                &&& !(next.phase is AwaitEdit) ==> {
                    &&& next.domain == model.domain + 1
                    &&& closed.len() == 1
                    &&& closed[0].closes()
                    &&& closed[0] is Summary ==> closed[0]->Summary_apex == model.current().name
                    &&& closed[0] is DomainFailed ==> closed[0]->DomainFailed_apex
                        == model.current().name
                    &&& closed[0] is Summary <==> (model.phase is AwaitEdit
                        || reply.retrieved() is Ok)
                }
            }
            &&& model.phase is AwaitRecords && next.phase is AwaitEdit ==> reply.retrieved() is Ok
        }),
{
    lemma_step_keeps_wf(model, reply);
    lemma_closings_empty();
    match model.phase {
        Phase::AwaitPing => {
            if let Ok(ip) = reply.observed() {
                lemma_closings_open(Model { ip, ..model }, 0, Seq::empty());
            }
        },
        Phase::AwaitRecords => {
            match reply.retrieved() {
                Ok(records) => {
                    let held = Model {
                        list: relevant_records(records, model.current().name),
                        ..model
                    };
                    lemma_closings_walk(held, 0, Tally::zero(), Seq::empty());
                },
                Err(message) => {
                    let failed = NoticeView::DomainFailed { apex: model.current().name, message };
                    lemma_closings_push(Seq::empty(), failed);
                    assert(Seq::<NoticeView>::empty().push(failed) =~= seq![failed]);
                    lemma_closings_open(model, model.domain + 1, seq![failed]);
                },
            }
        },
        Phase::AwaitEdit => {
            let notice = model.edited(reply);
            lemma_closings_push(Seq::empty(), notice);
            assert(Seq::<NoticeView>::empty().push(notice) =~= seq![notice]);
            lemma_closings_walk(
                model,
                model.cursor + 1,
                model.tally.absorb(seq![notice]),
                seq![notice],
            );
        },
        _ => {},
    }
}

/// The domain that a closing notice is about.
pub open spec fn closed_apex(notice: NoticeView) -> Seq<char> {
    match notice {
        NoticeView::Summary { apex, .. } => apex,
        NoticeView::DomainFailed { apex, .. } => apex,
        _ => Seq::empty(),
    }
}

/// The index of the first domain that a state has not closed yet.
pub open spec fn base(model: Model) -> int {
    if model.phase is AwaitPing {
        0
    } else {
        model.domain
    }
}

/// From any state that a pass reaches, the domains are closed one by one in
/// configured order, each by the notice that its request for records
/// calls for: the summary where the records came, the failure where they
/// did not.
pub proof fn lemma_closings_follow_fetches(model: Model, replies: Seq<ReplyView>)
    requires
        model.wf(),
    ensures
        ({
            let run = run_from(model, replies);
            let closed = closings(run.notices);
            let fetched = fetches(model, replies);
            &&& run.state.wf()
            &&& run.state.config == model.config
            &&& run.state.phase is AwaitPing ==> model.phase is AwaitPing
            &&& model.phase is Aborted ==> run.state.phase is Aborted
            &&& run.state.phase is Aborted ==> model.phase is AwaitPing || model.phase is Aborted
            &&& run.state.phase is Aborted ==> closed.len() == 0 && fetched.len() == 0
            &&& !(run.state.phase is Aborted) ==> {
                &&& closed.len() + pending(run.state) == fetched.len() + pending(model)
                &&& base(run.state) == base(model) + closed.len()
            }
            &&& forall|k: int|
                0 <= k < fetched.len() ==> (#[trigger] fetched[k]).0 == base(model) + pending(
                    model,
                ) + k
            &&& forall|k: int|
                #![trigger closed[k]]
                0 <= k < closed.len() ==> {
                    &&& closed[k].closes()
                    &&& closed_apex(closed[k]) == model.config.domains[base(model) + k].name
                    &&& closed[k] is Summary <==> (if model.phase is AwaitEdit {
                        k == 0 || fetched[k - 1].1
                    } else {
                        fetched[k].1
                    })
                }
        }),
    decreases replies.len(),
{
    lemma_closings_empty();
    if replies.len() > 0 {
        let (next, step) = model.step(replies[0]);
        let rest = replies.drop_first();
        lemma_step_closes(model, replies[0]);
        lemma_closings_follow_fetches(next, rest);
        let tail = run_from(next, rest);
        Seq::filter_distributes_over_add(step.notices, tail.notices, closing());
        let first = closings(step.notices);
        let later = closings(tail.notices);
        let closed = closings(run_from(model, replies).notices);
        assert(closed == first + later);
        let fetched = fetches(model, replies);
        let fetched_later = fetches(next, rest);
        assert forall|k: int| 0 <= k < fetched.len() implies (#[trigger] fetched[k]).0 == base(
            model,
        ) + pending(model) + k by {
            if model.phase is AwaitRecords {
                if k > 0 {
                    assert(fetched[k] == fetched_later[k - 1]);
                }
            } else {
                assert(fetched[k] == fetched_later[k]);
            }
        }
        assert forall|k: int| 0 <= k < closed.len() implies {
            &&& (#[trigger] closed[k]).closes()
            &&& closed_apex(closed[k]) == model.config.domains[base(model) + k].name
            &&& closed[k] is Summary <==> (if model.phase is AwaitEdit {
                k == 0 || fetched[k - 1].1
            } else {
                fetched[k].1
            })
        } by {
            if k < first.len() {
                assert(closed[k] == first[k]);
            } else {
                assert(closed[k] == later[k - first.len()]);
            }
        }
    }
}

/// In a pass, the requests for records are answered for one domain after
/// the other in configured order, and the notices that close a domain come
/// one for each domain in that order: the summary where the records of the
/// domain came, the failure where they did not. A finished pass has closed
/// every domain, so each has exactly one closing notice; a pass that was
/// aborted has closed none.
pub proof fn lemma_each_domain_closed_once(
    config: ConfigView,
    replies: Seq<ReplyView>,
)
    ensures
        ({
            let run = run_from(Model::initial(config), replies);
            let closed = closings(run.notices);
            let fetched = fetches(Model::initial(config), replies);
            &&& closed.len() <= fetched.len() <= config.domains.len()
            &&& forall|d: int| 0 <= d < fetched.len() ==> (#[trigger] fetched[d]).0 == d
            &&& run.state.phase is Finished ==> closed.len() == config.domains.len()
            &&& run.state.phase is Aborted ==> closed.len() == 0
            &&& forall|d: int|
                #![trigger closed[d]]
                0 <= d < closed.len() ==> {
                    &&& closed_apex(closed[d]) == config.domains[d].name
                    &&& fetched[d].1 ==> closed[d] is Summary
                    &&& !fetched[d].1 ==> closed[d] is DomainFailed
                }
        }),
{
    lemma_closings_follow_fetches(Model::initial(config), replies);
}

/// Where no detail is asked for, the lines printed are the lines of the
/// notices that close a domain, in their order: one line for each domain
/// that a pass has closed.
pub proof fn lemma_quiet_lines_close_domains(notices: Seq<NoticeView>)
    ensures
        printed(notices, false) == closings(notices).map_values(line_of()),
{
    assert(shown_at(false) =~= closing());
}

/// Where detail is asked for, every notice is shown.
proof fn lemma_detail_shows_all(notices: Seq<NoticeView>)
    ensures
        notices.filter(shown_at(true)) == notices,
    decreases notices.len(),
{
    reveal(Seq::filter);
    if notices.len() > 0 {
        lemma_detail_shows_all(notices.drop_last());
        assert(shown_at(true)(notices.last()));
        assert(notices.drop_last().push(notices.last()) =~= notices);
    }
}

/// Where detail is asked for, every notice has its line printed.
pub proof fn lemma_detail_prints_all(notices: Seq<NoticeView>)
    ensures
        printed(notices, true) == notices.map_values(line_of()),
{
    lemma_detail_shows_all(notices);
}

} // verus!
