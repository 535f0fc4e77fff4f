//! The edits that a pass sends for a domain are those that its stale names
//! call for, one for each, in the order of the names.

use crate::command::EditView as EditBodyView;
use crate::command::KeyView;
use crate::laws::steps::lemma_next_edit_finds_first;
use crate::laws::steps::lemma_step_keeps_wf;
use crate::model::ActionView;
use crate::model::Model;
use crate::model::run_from;
use crate::notice::NoticeView;
use crate::notice::Tally;
use crate::reconcile::first_named;
use crate::reconcile::relevant_records;
use crate::reconcile::ttl_or_default;
use crate::response::RecordView;
use crate::wire::ReplyView;
use crate::wire::RequestView;
use vstd::prelude::*;

verus! {

/// The test for a name that has a record among `list`.
pub open spec fn has_record(list: Seq<RecordView>) -> spec_fn(Seq<char>) -> bool {
    |name: Seq<char>| first_named(list, name) is Some
}

/// The test for a name whose record among `list` holds another content than `ip`.
pub open spec fn is_stale(list: Seq<RecordView>, ip: Seq<char>) -> spec_fn(Seq<char>) -> bool {
    |name: Seq<char>| first_named(list, name) matches Some(record) && record.content != ip
}

/// The test for an action that sends an edit.
pub open spec fn sends_edit() -> spec_fn(ActionView) -> bool {
    |action: ActionView| action is Send && action->Send_0 is Edit
}

/// The actions that send an edit, in order.
pub open spec fn edits_sent(actions: Seq<ActionView>) -> Seq<ActionView> {
    actions.filter(sends_edit())
}

/// How many of the actions send an edit.
pub open spec fn edit_count(actions: Seq<ActionView>) -> nat {
    edits_sent(actions).len()
}

/// The action that sends the edit for a stale name: it addresses the
/// record of that name by its id in the zone of `apex`, and carries the
/// credentials, `ip` as the new content and the time to live of the
/// record, or the default where it has none.
pub open spec fn edit_for(key: KeyView, apex: Seq<char>, list: Seq<RecordView>, ip: Seq<char>)
    -> spec_fn(Seq<char>) -> ActionView {
    |name: Seq<char>|
        ActionView::Send(
            RequestView::Edit {
                apex,
                id: first_named(list, name)->0.id,
                body: EditBodyView {
                    apikey: key.apikey,
                    secretapikey: key.secretapikey,
                    content: ip,
                    ttl: ttl_or_default(first_named(list, name)->0.ttl),
                },
            },
        )
}

/// The action that sends the edit for a stale name of the domain in progress.
pub open spec fn edit_of(model: Model) -> spec_fn(Seq<char>) -> ActionView {
    edit_for(model.key(), model.current().name, model.list, model.ip)
}

/// The names of the domain in progress, from index `from` on, that have a
/// record which holds another content than the observed address.
pub open spec fn stale_names(model: Model, from: int) -> Seq<Seq<char>> {
    model.targets().skip(from).filter(is_stale(model.list, model.ip))
}

/// How many names of the domain in progress, from index `from` on, are stale.
pub open spec fn stale_from(model: Model, from: int) -> nat {
    stale_names(model, from).len()
}

/// A single name is picked where it is stale.
proof fn lemma_single(name: Seq<char>, list: Seq<RecordView>, ip: Seq<char>)
    ensures
        seq![name].filter(is_stale(list, ip)) == if is_stale(list, ip)(name) {
            seq![name]
        } else {
            Seq::empty()
        },
{
    reveal(Seq::filter);
    assert(seq![name] =~= Seq::<Seq<char>>::empty().push(name));
    Seq::<Seq<char>>::empty().lemma_filter_push(name, is_stale(list, ip));
    assert(Seq::<Seq<char>>::empty().filter(is_stale(list, ip)) =~= Seq::empty());
    assert(Seq::<Seq<char>>::empty().push(name) =~= seq![name]);
}

/// The stale names from `from` on are the first name that needs an edit
/// and the stale names after it, or none where no name needs one.
proof fn lemma_stale_names_next_edit(model: Model, from: int)
    requires
        0 <= from <= model.targets().len(),
    ensures
        ({
            let stop = model.next_edit(from);
            if stop < model.targets().len() {
                stale_names(model, from) == seq![model.targets()[stop]] + stale_names(
                    model,
                    stop + 1,
                )
            } else {
                stale_names(model, from) == Seq::<Seq<char>>::empty()
            }
        }),
    decreases model.targets().len() - from,
{
    let names = model.targets();
    let stale = is_stale(model.list, model.ip);
    if from >= names.len() {
        reveal(Seq::filter);
        assert(names.skip(from) =~= Seq::empty());
    } else {
        let rest = names.skip(from + 1);
        assert(names.skip(from) =~= seq![names[from]] + rest);
        Seq::filter_distributes_over_add(seq![names[from]], rest, stale);
        lemma_single(names[from], model.list, model.ip);
        if model.decision(from) is Edit {
            assert(stale(names[from]));
        } else {
            assert(!stale(names[from]));
            lemma_stale_names_next_edit(model, from + 1);
            assert(Seq::<Seq<char>>::empty() + rest.filter(stale) =~= rest.filter(stale));
        }
    }
}

/// The first action adds itself to the edits sent where it sends one.
proof fn lemma_edits_sent_first(action: ActionView, rest: Seq<ActionView>)
    ensures
        edits_sent(seq![action] + rest) == if sends_edit()(action) {
            seq![action] + edits_sent(rest)
        } else {
            edits_sent(rest)
        },
{
    reveal(Seq::filter);
    Seq::filter_distributes_over_add(seq![action], rest, sends_edit());
    assert(seq![action] =~= Seq::<ActionView>::empty().push(action));
    Seq::<ActionView>::empty().lemma_filter_push(action, sends_edit());
    assert(Seq::<ActionView>::empty().filter(sends_edit()) =~= Seq::empty());
    assert(Seq::<ActionView>::empty() + edits_sent(rest) =~= edits_sent(rest));
    assert(Seq::<ActionView>::empty().push(action) =~= seq![action]);
}

/// Settling the names of a domain stops at the first stale name and asks
/// for its edit, or finds none and closes the domain without one.
pub(crate) proof fn lemma_walk_edits(model: Model, from: int, tally: Tally, lead: Seq<NoticeView>)
    requires
        0 <= from <= model.targets().len(),
    ensures
        ({
            let (next, step) = model.walk(from, tally, lead);
            &&& next.config == model.config
            &&& next.ip == model.ip
            &&& if next.phase is AwaitEdit {
                &&& next.domain == model.domain
                &&& next.list == model.list
                &&& from <= next.cursor < model.targets().len()
                &&& step.action == edit_of(model)(model.targets()[next.cursor])
                &&& stale_names(model, from) == seq![model.targets()[next.cursor]] + stale_names(
                    next,
                    next.cursor + 1,
                )
                &&& stale_from(model, from) == 1 + stale_from(next, next.cursor + 1)
                &&& edit_of(next) == edit_of(model)
            } else {
                &&& next.domain == model.domain + 1
                &&& !sends_edit()(step.action)
                &&& stale_names(model, from) == Seq::<Seq<char>>::empty()
                &&& stale_from(model, from) == 0
            }
        }),
{
    lemma_next_edit_finds_first(model, from);
    lemma_stale_names_next_edit(model, from);
    let (next, step) = model.walk(from, tally, lead);
    if next.phase is AwaitEdit {
        assert(next.targets() == model.targets());
        assert(next.key() == model.key());
        assert(next.current() == model.current());
    }
}

/// From a state in which an edit is out, answered once for that edit and
/// once for each stale name that follows, the pass sends the edits of
/// those names, in their order, and then closes the domain.
proof fn lemma_edits_until_closed(model: Model, replies: Seq<ReplyView>)
    requires
        model.wf(),
        model.phase is AwaitEdit,
        replies.len() == 1 + stale_from(model, model.cursor + 1),
    ensures
        ({
            let run = run_from(model, replies);
            &&& edits_sent(run.actions) == stale_names(model, model.cursor + 1).map_values(
                edit_of(model),
            )
            &&& run.actions.len() == replies.len()
            &&& run.state.domain == model.domain + 1
            &&& !(run.state.phase is AwaitEdit)
        }),
    decreases replies.len(),
{
    let notice = model.edited(replies[0]);
    let (next, step) = model.step(replies[0]);
    let rest = replies.drop_first();
    let names = model.targets();
    lemma_step_keeps_wf(model, replies[0]);
    lemma_walk_edits(model, model.cursor + 1, model.tally.absorb(seq![notice]), seq![notice]);
    let tail = run_from(next, rest);
    lemma_edits_sent_first(step.action, tail.actions);
    if next.phase is AwaitEdit {
        lemma_edits_until_closed(next, rest);
        assert((seq![names[next.cursor]] + stale_names(next, next.cursor + 1)).map_values(
            edit_of(model),
        ) =~= seq![step.action] + stale_names(next, next.cursor + 1).map_values(edit_of(model)));
    } else {
        assert(rest.len() == 0);
        reveal(Seq::filter);
        assert(edits_sent(tail.actions) =~= Seq::empty());
        assert(Seq::<Seq<char>>::empty().map_values(edit_of(model)) =~= Seq::empty());
    }
}

/// The relevant records that a pass holds for a domain once the records came.
pub open spec fn held_records(model: Model, reply: ReplyView) -> Seq<RecordView> {
    relevant_records(reply.retrieved()->Ok_0, model.current().name)
}

/// The names of the domain in progress that are stale, given the answer
/// with its records.
pub open spec fn stale_in(model: Model, reply: ReplyView) -> Seq<Seq<char>> {
    model.targets().filter(is_stale(held_records(model, reply), model.ip))
}

/// The answers that take a pass through one domain: the records, then one
/// answer for each edit that the domain needs, which is one for each name
/// whose record holds another content than the observed address.
pub open spec fn covers_domain(model: Model, replies: Seq<ReplyView>) -> bool {
    &&& model.phase is AwaitRecords
    &&& replies.len() > 0
    &&& replies[0].retrieved() is Ok
    &&& replies.len() == 1 + stale_in(model, replies[0]).len()
}

/// Working through a domain whose records came, the pass sends the edit
/// of each name whose record holds another content than the observed
/// address, in the order of the names, and no other edit; after the last
/// answer it turns to the next domain.
pub proof fn lemma_one_edit_per_stale_name(model: Model, replies: Seq<ReplyView>)
    requires
        model.wf(),
        covers_domain(model, replies),
    ensures
        ({
            let run = run_from(model, replies);
            let list = held_records(model, replies[0]);
            &&& edits_sent(run.actions) == stale_in(model, replies[0]).map_values(
                edit_for(model.key(), model.current().name, list, model.ip),
            )
            &&& edit_count(run.actions) == stale_in(model, replies[0]).len()
            &&& run.actions.len() == replies.len()
            &&& run.state.domain == model.domain + 1
            &&& !(run.state.phase is AwaitEdit)
        }),
{
    let held = Model { list: held_records(model, replies[0]), ..model };
    let (next, step) = model.step(replies[0]);
    let rest = replies.drop_first();
    let names = model.targets();
    assert(held.targets().skip(0) =~= names);
    assert(edit_of(held) == edit_for(model.key(), model.current().name, held.list, model.ip));
    lemma_step_keeps_wf(model, replies[0]);
    lemma_walk_edits(held, 0, Tally::zero(), Seq::empty());
    let tail = run_from(next, rest);
    lemma_edits_sent_first(step.action, tail.actions);
    if next.phase is AwaitEdit {
        lemma_edits_until_closed(next, rest);
        assert((seq![names[next.cursor]] + stale_names(next, next.cursor + 1)).map_values(
            edit_of(held),
        ) =~= seq![step.action] + stale_names(next, next.cursor + 1).map_values(edit_of(held)));
    } else {
        assert(rest.len() == 0);
        reveal(Seq::filter);
        assert(edits_sent(tail.actions) =~= Seq::empty());
        assert(Seq::<Seq<char>>::empty().map_values(edit_of(held)) =~= Seq::empty());
    }
}

/// Where no name has a record that already holds the address, the stale
/// names are the names that have a record.
pub proof fn lemma_stale_where_none_current(
    names: Seq<Seq<char>>,
    list: Seq<RecordView>,
    ip: Seq<char>,
)
    requires
        forall|i: int|
            0 <= i < names.len() ==> (first_named(list, #[trigger] names[i]) matches Some(record)
                ==> record.content != ip),
    ensures
        names.filter(is_stale(list, ip)) == names.filter(has_record(list)),
    decreases names.len(),
{
    reveal(Seq::filter);
    if names.len() > 0 {
        let front = names.drop_last();
        assert forall|i: int| 0 <= i < front.len() implies (first_named(
            list,
            #[trigger] front[i],
        ) matches Some(record) ==> record.content != ip) by {
            assert(front[i] == names[i]);
        }
        lemma_stale_where_none_current(front, list, ip);
        assert(names.last() == names[names.len() - 1]);
    }
}

/// Where no name of a domain has a record that already holds the observed
/// address, working through the domain sends as many edits as there are
/// names with a record.
pub proof fn lemma_edits_match_records(model: Model, replies: Seq<ReplyView>)
    requires
        model.wf(),
        forall|i: int|
            0 <= i < model.targets().len() ==> (first_named(
                held_records(model, replies[0]),
                #[trigger] model.targets()[i],
            ) matches Some(record) ==> record.content != model.ip),
        covers_domain(model, replies),
    ensures
        edit_count(run_from(model, replies).actions) == model.targets().filter(
            has_record(held_records(model, replies[0])),
        ).len(),
        !(run_from(model, replies).state.phase is AwaitEdit),
        run_from(model, replies).state.domain == model.domain + 1,
{
    lemma_stale_where_none_current(model.targets(), held_records(model, replies[0]), model.ip);
    lemma_one_edit_per_stale_name(model, replies);
}

} // verus!
