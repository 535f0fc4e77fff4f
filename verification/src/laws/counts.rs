//! The summary of a domain counts the outcomes that were reported.

use crate::laws::domains::lemma_closings_empty;
use crate::laws::domains::lemma_closings_open;
use crate::laws::domains::lemma_closings_push;
use crate::laws::domains::lemma_closings_settled;
use crate::laws::edits::covers_domain;
use crate::laws::edits::edit_count;
use crate::laws::edits::held_records;
use crate::laws::edits::is_stale;
use crate::laws::edits::lemma_one_edit_per_stale_name;
use crate::laws::edits::lemma_walk_edits;
use crate::laws::edits::stale_from;
use crate::laws::steps::lemma_next_edit_finds_first;
use crate::laws::steps::lemma_step_keeps_wf;
use crate::model::lemma_next_edit;
use crate::model::lemma_settled_range_push;
use crate::model::Model;
use crate::model::run_from;
use crate::notice::closing;
use crate::notice::closings;
use crate::notice::lemma_absorb_push;
use crate::notice::NoticeView;
use crate::notice::Tally;
use crate::reconcile::first_named;
use crate::response::RecordView;
use crate::wire::ReplyView;
use vstd::prelude::*;

verus! {

/// Counting the outcomes of notices said one after the other.
proof fn lemma_absorb_add(tally: Tally, first: Seq<NoticeView>, later: Seq<NoticeView>)
    ensures
        tally.absorb(first + later) == tally.absorb(first).absorb(later),
    decreases later.len(),
{
    if later.len() == 0 {
        assert(first + later =~= first);
    } else {
        lemma_absorb_add(tally, first, later.drop_last());
        assert((first + later).drop_last() =~= first + later.drop_last());
    }
}

/// Settling the names of a domain keeps count of every outcome said so far
/// in the step, and the summary that closes the domain reports that count.
proof fn lemma_walk_tally(model: Model, from: int, start: Tally, lead: Seq<NoticeView>)
    requires
        0 <= from <= model.targets().len(),
        closings(lead).len() == 0,
    ensures
        ({
            let (next, step) = model.walk(from, start.absorb(lead), lead);
            if next.phase is AwaitEdit {
                &&& next.tally == start.absorb(step.notices)
                &&& closings(step.notices).len() == 0
            } else {
                closings(step.notices) == seq![
                    NoticeView::Summary {
                        apex: model.current().name,
                        tally: start.absorb(step.notices),
                    },
                ]
            }
        }),
{
    let stop = model.next_edit(from);
    lemma_next_edit_finds_first(model, from);
    let range = model.settled_range(from, stop);
    let said = lead + range;
    lemma_absorb_add(start, lead, range);
    lemma_closings_settled(model, lead, from, stop);
    if stop >= model.targets().len() {
        let whole = start.absorb(said);
        let summary = NoticeView::Summary { apex: model.current().name, tally: whole };
        lemma_closings_push(said, summary);
        lemma_absorb_push(start, said, summary);
        lemma_closings_open(model, model.domain + 1, said.push(summary));
        if model.domain + 1 < model.config.domains.len() {
            lemma_absorb_push(
                start,
                said.push(summary),
                NoticeView::DomainStarted { apex: model.config.domains[model.domain + 1].name },
            );
        }
        assert(closings(said).push(summary) =~= seq![summary]);
    }
}

/// From a state in which an edit is out, the rest of the domain closes it
/// with one summary, which counts the outcomes so far and those that follow.
proof fn lemma_tally_until_closed(model: Model, replies: Seq<ReplyView>)
    requires
        model.wf(),
        model.phase is AwaitEdit,
        replies.len() == 1 + stale_from(model, model.cursor + 1),
    ensures
        closings(run_from(model, replies).notices) == seq![
            NoticeView::Summary {
                apex: model.current().name,
                tally: model.tally.absorb(run_from(model, replies).notices),
            },
        ],
    decreases replies.len(),
{
    let notice = model.edited(replies[0]);
    let (next, step) = model.step(replies[0]);
    let rest = replies.drop_first();
    lemma_step_keeps_wf(model, replies[0]);
    lemma_closings_empty();
    lemma_closings_push(Seq::empty(), notice);
    assert(Seq::<NoticeView>::empty().push(notice) =~= seq![notice]);
    lemma_walk_edits(model, model.cursor + 1, model.tally.absorb(seq![notice]), seq![notice]);
    lemma_walk_tally(model, model.cursor + 1, model.tally, seq![notice]);
    let tail = run_from(next, rest);
    Seq::filter_distributes_over_add(step.notices, tail.notices, closing());
    lemma_absorb_add(model.tally, step.notices, tail.notices);
    if next.phase is AwaitEdit {
        lemma_tally_until_closed(next, rest);
        assert(closings(step.notices) =~= Seq::empty());
        assert(closings(step.notices) + closings(tail.notices) =~= closings(tail.notices));
    } else {
        assert(rest.len() == 0);
        assert(step.notices + tail.notices =~= step.notices);
    }
}

/// Working through a domain whose records came, the pass closes it with
/// one summary and nothing else, and the counts of the summary are the
/// numbers of names that were reported changed, skipped and errored.
pub proof fn lemma_summary_counts_outcomes(model: Model, replies: Seq<ReplyView>)
    requires
        model.wf(),
        covers_domain(model, replies),
    ensures
        closings(run_from(model, replies).notices) == seq![
            NoticeView::Summary {
                apex: model.current().name,
                tally: Tally::zero().absorb(run_from(model, replies).notices),
            },
        ],
{
    let held = Model { list: held_records(model, replies[0]), ..model };
    let (next, step) = model.step(replies[0]);
    let rest = replies.drop_first();
    assert(held.targets().skip(0) =~= model.targets());
    lemma_step_keeps_wf(model, replies[0]);
    lemma_closings_empty();
    lemma_walk_edits(held, 0, Tally::zero(), Seq::empty());
    lemma_walk_tally(held, 0, Tally::zero(), Seq::empty());
    let tail = run_from(next, rest);
    Seq::filter_distributes_over_add(step.notices, tail.notices, closing());
    lemma_absorb_add(Tally::zero(), step.notices, tail.notices);
    if next.phase is AwaitEdit {
        lemma_tally_until_closed(next, rest);
        assert(closings(step.notices) =~= Seq::empty());
        assert(closings(step.notices) + closings(tail.notices) =~= closings(tail.notices));
    } else {
        assert(rest.len() == 0);
        assert(step.notices + tail.notices =~= step.notices);
    }
}

/// Where every name has a record that holds the address, none is stale.
proof fn lemma_none_stale(
    names: Seq<Seq<char>>,
    list: Seq<RecordView>,
    ip: Seq<char>,
)
    requires
        forall|i: int|
            0 <= i < names.len() ==> (first_named(list, #[trigger] names[i]) matches Some(record)
                && record.content == ip),
    ensures
        names.filter(is_stale(list, ip)).len() == 0,
    decreases names.len(),
{
    reveal(Seq::filter);
    if names.len() > 0 {
        let front = names.drop_last();
        assert forall|i: int| 0 <= i < front.len() implies (first_named(
            list,
            #[trigger] front[i],
        ) matches Some(record) && record.content == ip) by {
            assert(front[i] == names[i]);
        }
        lemma_none_stale(front, list, ip);
        assert(names.last() == names[names.len() - 1]);
    }
}

/// Names that are all skipped count as skipped, one each.
proof fn lemma_all_skipped(model: Model, to: int)
    requires
        0 <= to <= model.targets().len(),
        forall|j: int| 0 <= j < to ==> model.decision(j) is Skip,
    ensures
        Tally::zero().absorb(model.settled_range(0, to)) == (Tally {
            changed: 0,
            skipped: to as nat,
            errored: 0,
        }),
    decreases to,
{
    if to > 0 {
        lemma_all_skipped(model, to - 1);
        lemma_settled_range_push(model, 0, to - 1);
        lemma_absorb_push(Tally::zero(), model.settled_range(0, to - 1), model.settled(to - 1));
    } else {
        assert(model.settled_range(0, to) =~= Seq::empty());
    }
}

/// Where every name of a domain has a record that already holds the
/// observed address, as after a pass whose edits were all applied, the
/// records alone take the pass through the domain: no edit is sent, and the
/// summary reports every name as skipped, none as changed or errored.
pub proof fn lemma_current_domain_is_left_alone(model: Model, reply: ReplyView)
    requires
        model.wf(),
        model.phase is AwaitRecords,
        reply.retrieved() is Ok,
        forall|i: int|
            0 <= i < model.targets().len() ==> (first_named(
                held_records(model, reply),
                #[trigger] model.targets()[i],
            ) matches Some(record) && record.content == model.ip),
    ensures
        covers_domain(model, seq![reply]),
        edit_count(run_from(model, seq![reply]).actions) == 0,
        closings(run_from(model, seq![reply]).notices) == seq![
            NoticeView::Summary {
                apex: model.current().name,
                tally: Tally { changed: 0, skipped: model.targets().len(), errored: 0 },
            },
        ],
{
    let names = model.targets();
    let list = held_records(model, reply);
    let held = Model { list, ..model };
    let replies = seq![reply];
    lemma_none_stale(names, list, model.ip);
    lemma_one_edit_per_stale_name(model, replies);
    lemma_summary_counts_outcomes(model, replies);
    assert(held.targets() == names);
    assert forall|j: int| 0 <= j < names.len() implies held.decision(j) is Skip by {
        assert(first_named(list, names[j]) matches Some(record) && record.content == model.ip);
    }
    lemma_next_edit(held, 0, names.len() as int);
    lemma_all_skipped(held, names.len() as int);
    assert(replies.drop_first() =~= Seq::empty());
    let (next, step) = model.step(reply);
    let tail = run_from(next, replies.drop_first());
    assert(tail.notices =~= Seq::empty());
    assert(run_from(model, replies).notices =~= step.notices);
    let range = held.settled_range(0, names.len() as int);
    let whole = Tally::zero().absorb(range);
    let summary = NoticeView::Summary { apex: model.current().name, tally: whole };
    lemma_absorb_add(Tally::zero(), Seq::empty(), range);
    assert(Seq::<NoticeView>::empty() + range =~= range);
    lemma_absorb_push(Tally::zero(), range, summary);
    if model.domain + 1 < model.config.domains.len() {
        lemma_absorb_push(
            Tally::zero(),
            range.push(summary),
            NoticeView::DomainStarted { apex: model.config.domains[model.domain + 1].name },
        );
    }
}

} // verus!
