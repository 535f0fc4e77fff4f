//! Every name of a domain gets its outcome exactly once, in processing order.

use crate::laws::edits::covers_domain;
use crate::laws::edits::held_records;
use crate::laws::edits::lemma_walk_edits;
use crate::laws::edits::stale_from;
use crate::laws::steps::lemma_next_edit_finds_first;
use crate::laws::steps::lemma_step_keeps_wf;
use crate::model::lemma_settled_range_push;
use crate::model::Model;
use crate::model::run_from;
use crate::notice::NoticeView;
use crate::notice::Tally;
use crate::wire::ReplyView;
use vstd::prelude::*;

verus! {

/// The test for a notice that gives a name its outcome.
pub open spec fn gives_outcome() -> spec_fn(NoticeView) -> bool {
    |notice: NoticeView| notice.status() is Some
}

/// The name that a notice is about, where it gives one its outcome.
pub open spec fn about() -> spec_fn(NoticeView) -> Seq<char> {
    |notice: NoticeView|
        match notice {
            NoticeView::Skipped { name } => name,
            NoticeView::Updated { name } => name,
            NoticeView::UpdateFailed { name, .. } => name,
            NoticeView::Missing { name } => name,
            _ => Seq::empty(),
        }
}

/// The names that the notices give an outcome, in the order of the notices.
pub open spec fn settled_names(notices: Seq<NoticeView>) -> Seq<Seq<char>> {
    notices.filter(gives_outcome()).map_values(about())
}

/// One more notice adds its name where it gives an outcome.
proof fn lemma_settled_names_push(notices: Seq<NoticeView>, notice: NoticeView)
    ensures
        settled_names(notices.push(notice)) == if notice.status() is Some {
            settled_names(notices).push(about()(notice))
        } else {
            settled_names(notices)
        },
{
    notices.lemma_filter_push(notice, gives_outcome());
    if notice.status() is Some {
        assert(notices.filter(gives_outcome()).push(notice).map_values(about())
            =~= settled_names(notices).push(about()(notice)));
    }
}

/// The names of notices said one after the other.
proof fn lemma_settled_names_add(first: Seq<NoticeView>, later: Seq<NoticeView>)
    ensures
        settled_names(first + later) == settled_names(first) + settled_names(later),
{
    Seq::filter_distributes_over_add(first, later, gives_outcome());
    assert((first.filter(gives_outcome()) + later.filter(gives_outcome())).map_values(about())
        =~= settled_names(first) + settled_names(later));
}

/// The names settled without an edit come in the order of the names.
proof fn lemma_settled_range_names(model: Model, lead: Seq<NoticeView>, from: int, to: int)
    requires
        0 <= from <= to <= model.targets().len(),
    ensures
        settled_names(lead + model.settled_range(from, to)) == settled_names(lead)
            + model.targets().subrange(from, to),
    decreases to - from,
{
    if from < to {
        lemma_settled_range_names(model, lead, from, to - 1);
        lemma_settled_range_push(model, from, to - 1);
        assert(lead + model.settled_range(from, to) =~= (lead + model.settled_range(
            from,
            to - 1,
        )).push(model.settled(to - 1)));
        lemma_settled_names_push(lead + model.settled_range(from, to - 1), model.settled(to - 1));
        assert(settled_names(lead) + model.targets().subrange(from, to) =~= (settled_names(lead)
            + model.targets().subrange(from, to - 1)).push(model.targets()[to - 1]));
    } else {
        assert(lead + model.settled_range(from, to) =~= lead);
        assert(settled_names(lead) + model.targets().subrange(from, to) =~= settled_names(lead));
    }
}

/// Settling the names of a domain gives each name up to the one it stops
/// at its outcome, in the order of the names.
proof fn lemma_walk_names(model: Model, from: int, tally: Tally, lead: Seq<NoticeView>)
    requires
        0 <= from <= model.targets().len(),
    ensures
        ({
            let (next, step) = model.walk(from, tally, lead);
            let stop = if next.phase is AwaitEdit {
                next.cursor
            } else {
                model.targets().len() as int
            };
            &&& from <= stop <= model.targets().len()
            &&& settled_names(step.notices) == settled_names(lead) + model.targets().subrange(
                from,
                stop,
            )
        }),
{
    let stop = model.next_edit(from);
    lemma_next_edit_finds_first(model, from);
    lemma_settled_range_names(model, lead, from, stop);
    let said = lead + model.settled_range(from, stop);
    if stop >= model.targets().len() {
        let whole = tally.absorb(model.settled_range(from, stop));
        let summary = NoticeView::Summary { apex: model.current().name, tally: whole };
        lemma_settled_names_push(said, summary);
        if model.domain + 1 < model.config.domains.len() {
            lemma_settled_names_push(
                said.push(summary),
                NoticeView::DomainStarted { apex: model.config.domains[model.domain + 1].name },
            );
        }
    }
}

/// From a state in which an edit is out, the rest of the domain gives the
/// name of that edit and each name after it its outcome, in order.
proof fn lemma_names_until_closed(model: Model, replies: Seq<ReplyView>)
    requires
        model.wf(),
        model.phase is AwaitEdit,
        replies.len() == 1 + stale_from(model, model.cursor + 1),
    ensures
        settled_names(run_from(model, replies).notices) == model.targets().skip(model.cursor),
    decreases replies.len(),
{
    let notice = model.edited(replies[0]);
    let (next, step) = model.step(replies[0]);
    let rest = replies.drop_first();
    let names = model.targets();
    lemma_step_keeps_wf(model, replies[0]);
    lemma_walk_edits(model, model.cursor + 1, model.tally.absorb(seq![notice]), seq![notice]);
    lemma_walk_names(model, model.cursor + 1, model.tally.absorb(seq![notice]), seq![notice]);
    let tail = run_from(next, rest);
    lemma_settled_names_add(step.notices, tail.notices);
    reveal(Seq::filter);
    assert(seq![notice] =~= Seq::<NoticeView>::empty().push(notice));
    lemma_settled_names_push(Seq::empty(), notice);
    assert(settled_names(Seq::empty()) =~= Seq::<Seq<char>>::empty());
    assert(settled_names(seq![notice]) =~= seq![names[model.cursor]]);
    if next.phase is AwaitEdit {
        lemma_names_until_closed(next, rest);
        assert(next.targets() == names);
        assert(seq![names[model.cursor]] + names.subrange(model.cursor + 1, next.cursor)
            + names.skip(next.cursor) =~= names.skip(model.cursor));
    } else {
        assert(rest.len() == 0);
        assert(settled_names(tail.notices) =~= Seq::<Seq<char>>::empty());
        assert(seq![names[model.cursor]] + names.subrange(
            model.cursor + 1,
            names.len() as int,
        ) + Seq::<Seq<char>>::empty() =~= names.skip(model.cursor));
    }
}

/// Working through a domain whose records came, the pass gives each name
/// of the domain its outcome exactly once, in the order of the names: the
/// apex first where it is enabled, then the subdomains as configured.
pub proof fn lemma_each_name_settled_in_order(model: Model, replies: Seq<ReplyView>)
    requires
        model.wf(),
        covers_domain(model, replies),
    ensures
        settled_names(run_from(model, replies).notices) == model.targets(),
{
    let held = Model { list: held_records(model, replies[0]), ..model };
    let (next, step) = model.step(replies[0]);
    let rest = replies.drop_first();
    let names = model.targets();
    assert(held.targets().skip(0) =~= names);
    lemma_step_keeps_wf(model, replies[0]);
    lemma_walk_edits(held, 0, Tally::zero(), Seq::empty());
    lemma_walk_names(held, 0, Tally::zero(), Seq::empty());
    let tail = run_from(next, rest);
    lemma_settled_names_add(step.notices, tail.notices);
    reveal(Seq::filter);
    assert(settled_names(Seq::empty()) =~= Seq::<Seq<char>>::empty());
    if next.phase is AwaitEdit {
        lemma_names_until_closed(next, rest);
        assert(next.targets() == names);
        assert(Seq::<Seq<char>>::empty() + names.subrange(0, next.cursor) + names.skip(
            next.cursor,
        ) =~= names);
    } else {
        assert(rest.len() == 0);
        assert(settled_names(tail.notices) =~= Seq::<Seq<char>>::empty());
        assert(Seq::<Seq<char>>::empty() + names.subrange(0, names.len() as int)
            + Seq::<Seq<char>>::empty() =~= names);
    }
}

/// Whether every one of the notices gives a name its outcome.
#[verifier::opaque]
pub open spec fn all_settle(notices: Seq<NoticeView>) -> bool {
    forall|i: int| 0 <= i < notices.len() ==> (#[trigger] notices[i]).status() is Some
}

/// What a pass says when it turns from the domain in progress to the next:
/// that work on the next begins, or nothing where there is none.
pub open spec fn opening(model: Model) -> Seq<NoticeView> {
    if model.domain + 1 < model.config.domains.len() {
        seq![NoticeView::DomainStarted { apex: model.config.domains[model.domain + 1].name }]
    } else {
        Seq::empty()
    }
}

/// Whether the notices are those of one domain from records to summary:
/// first notices that each give a name its outcome, then the summary of
/// the domain, then the opening of the next.
pub open spec fn in_shape(model: Model, notices: Seq<NoticeView>) -> bool {
    let outcomes = notices.len() - 1 - opening(model).len();
    &&& outcomes >= 0
    &&& all_settle(notices.subrange(0, outcomes))
    &&& notices[outcomes] is Summary
    &&& notices[outcomes]->Summary_apex == model.current().name
    &&& notices.skip(outcomes + 1) == opening(model)
}

/// Outcomes after outcomes are all outcomes.
proof fn lemma_all_settle_add(first: Seq<NoticeView>, later: Seq<NoticeView>)
    requires
        all_settle(first),
        all_settle(later),
    ensures
        all_settle(first + later),
{
    reveal(all_settle);
    let joined = first + later;
    assert forall|i: int| 0 <= i < joined.len() implies (#[trigger] joined[i]).status()
        is Some by {
        if i < first.len() {
            assert(joined[i] == first[i]);
        } else {
            assert(joined[i] == later[i - first.len()]);
        }
    }
}

/// The notices about names settled without an edit all give an outcome.
proof fn lemma_settled_range_settles(model: Model, from: int, to: int)
    requires
        from <= to,
    ensures
        all_settle(model.settled_range(from, to)),
{
    reveal(all_settle);
}

/// The notice about an edit that was out gives an outcome.
proof fn lemma_edited_settles(model: Model, reply: ReplyView)
    ensures
        all_settle(seq![model.edited(reply)]),
{
    reveal(all_settle);
}

/// Outcomes, then a summary, then the opening of the next domain: that is
/// the shape of a domain.
proof fn lemma_closed_shape(model: Model, body: Seq<NoticeView>, summary: NoticeView)
    requires
        all_settle(body),
        summary is Summary,
        summary->Summary_apex == model.current().name,
    ensures
        in_shape(model, body.push(summary) + opening(model)),
{
    let whole = body.push(summary) + opening(model);
    assert(whole.subrange(0, body.len() as int) =~= body);
    assert(whole.skip(body.len() as int + 1) =~= opening(model));
}

/// What settling the names of a domain says: the notices about the names
/// up to the edit it stops at, or about all that are left, followed by the
/// summary and the opening of the next domain.
proof fn lemma_walk_says(model: Model, from: int, tally: Tally, lead: Seq<NoticeView>)
    requires
        0 <= from <= model.targets().len(),
    ensures
        ({
            let (next, step) = model.walk(from, tally, lead);
            let left = model.settled_range(from, model.targets().len() as int);
            if next.phase is AwaitEdit {
                &&& from <= next.cursor
                &&& step.notices == lead + model.settled_range(from, next.cursor)
            } else {
                step.notices == (lead + left).push(
                    NoticeView::Summary { apex: model.current().name, tally: tally.absorb(left) },
                ) + opening(model)
            }
        }),
{
    let stop = model.next_edit(from);
    lemma_next_edit_finds_first(model, from);
    let (next, step) = model.walk(from, tally, lead);
    if stop >= model.targets().len() {
        let left = model.settled_range(from, stop);
        let summary = NoticeView::Summary { apex: model.current().name, tally: tally.absorb(left) };
        assert(step.notices =~= (lead + left).push(summary) + opening(model));
    }
}

/// From a state in which an edit is out, what the rest of the domain says
/// joins the outcomes said before into the shape of a domain.
proof fn lemma_shape_until_closed(model: Model, replies: Seq<ReplyView>, before: Seq<NoticeView>)
    requires
        model.wf(),
        model.phase is AwaitEdit,
        replies.len() == 1 + stale_from(model, model.cursor + 1),
        all_settle(before),
    ensures
        in_shape(model, before + run_from(model, replies).notices),
    decreases replies.len(),
{
    let notice = model.edited(replies[0]);
    let tally = model.tally.absorb(seq![notice]);
    let from = model.cursor + 1;
    let (next, step) = model.step(replies[0]);
    let rest = replies.drop_first();
    let tail = run_from(next, rest);
    lemma_step_keeps_wf(model, replies[0]);
    lemma_walk_edits(model, from, tally, seq![notice]);
    lemma_walk_says(model, from, tally, seq![notice]);
    lemma_edited_settles(model, replies[0]);
    if next.phase is AwaitEdit {
        let said = seq![notice] + model.settled_range(from, next.cursor);
        lemma_settled_range_settles(model, from, next.cursor);
        lemma_all_settle_add(seq![notice], model.settled_range(from, next.cursor));
        lemma_all_settle_add(before, said);
        lemma_shape_until_closed(next, rest, before + said);
        assert(before + run_from(model, replies).notices =~= (before + said) + tail.notices);
        assert(opening(next) == opening(model));
        assert(next.current() == model.current());
    } else {
        assert(rest.len() == 0);
        assert(tail.notices =~= Seq::empty());
        let left = model.settled_range(from, model.targets().len() as int);
        let said = seq![notice] + left;
        let summary = NoticeView::Summary { apex: model.current().name, tally: tally.absorb(left) };
        lemma_settled_range_settles(model, from, model.targets().len() as int);
        lemma_all_settle_add(seq![notice], left);
        lemma_all_settle_add(before, said);
        lemma_closed_shape(model, before + said, summary);
        assert(before + run_from(model, replies).notices =~= (before + said).push(summary)
            + opening(model));
    }
}

/// Working through a domain whose records came, the pass first gives the
/// names their outcomes and says nothing else, then closes the domain with
/// its summary, and then opens the next domain where there is one.
pub proof fn lemma_summary_follows_outcomes(model: Model, replies: Seq<ReplyView>)
    requires
        model.wf(),
        covers_domain(model, replies),
    ensures
        in_shape(model, run_from(model, replies).notices),
{
    let held = Model { list: held_records(model, replies[0]), ..model };
    let (next, step) = model.step(replies[0]);
    let rest = replies.drop_first();
    let tail = run_from(next, rest);
    let none = Seq::<NoticeView>::empty();
    assert(held.targets().skip(0) =~= model.targets());
    lemma_step_keeps_wf(model, replies[0]);
    lemma_walk_edits(held, 0, Tally::zero(), none);
    lemma_walk_says(held, 0, Tally::zero(), none);
    assert(all_settle(none)) by {
        reveal(all_settle);
    }
    assert(opening(held) == opening(model));
    assert(held.current() == model.current());
    if next.phase is AwaitEdit {
        let said = none + held.settled_range(0, next.cursor);
        lemma_settled_range_settles(held, 0, next.cursor);
        lemma_all_settle_add(none, held.settled_range(0, next.cursor));
        lemma_shape_until_closed(next, rest, said);
        assert(opening(next) == opening(model));
        assert(next.current() == model.current());
    } else {
        assert(rest.len() == 0);
        assert(tail.notices =~= none);
        let left = held.settled_range(0, held.targets().len() as int);
        let summary = NoticeView::Summary {
            apex: model.current().name,
            tally: Tally::zero().absorb(left),
        };
        lemma_settled_range_settles(held, 0, held.targets().len() as int);
        lemma_all_settle_add(none, left);
        lemma_closed_shape(held, none + left, summary);
        assert(run_from(model, replies).notices =~= (none + left).push(summary) + opening(held));
    }
}

} // verus!
