//! A pass as a state machine over mathematical values: each answer of the
//! registrar takes the pass to its next state, with what it has to say and
//! what to do next.

use crate::command::EditView as EditBodyView;
use crate::command::KeyView;
use crate::config::ConfigView;
use crate::config::DomainView;
use crate::notice::NoticeView;
use crate::notice::Tally;
use crate::reconcile::decide;
use crate::reconcile::DecisionView;
use crate::reconcile::relevant;
use crate::reconcile::relevant_records;
use crate::response::RecordView;
use crate::wire::ReplyView;
use crate::wire::RequestView;
use vstd::prelude::*;

verus! {

/// Where a pass stands.
#[derive(Debug, Clone, Copy, PartialEq, Eq, Structural)]
pub enum Phase {
    /// The ping is out; the observed address is not known yet.
    AwaitPing,
    /// The request for the records of the domain in progress is out.
    AwaitRecords,
    /// The edit for one name of the domain in progress is out.
    AwaitEdit,
    /// Every domain has been dealt with.
    Finished,
    /// The pass ended without an observed address.
    Aborted,
}

/// What to do next.
pub enum ActionView {
    /// Send the request and hand back what came of it.
    Send(RequestView),
    /// The pass is complete.
    Finish,
    /// The pass cannot go on.
    Abort { message: Seq<char> },
}

/// What one step of a pass yields.
pub struct StepView {
    /// What there is to say, in order.
    pub notices: Seq<NoticeView>,
    /// What to do next.
    pub action: ActionView,
}

/// The state of a pass.
pub struct Model {
    pub config: ConfigView,
    pub phase: Phase,
    /// The observed address, once the ping is answered.
    pub ip: Seq<char>,
    /// The index of the domain in progress.
    pub domain: int,
    /// The relevant records of the domain in progress.
    pub list: Seq<RecordView>,
    /// The index, among the names of the domain in progress, of the one whose edit is out.
    pub cursor: int,
    /// The outcomes of the domain in progress so far.
    pub tally: Tally,
    /// Why the pass was aborted.
    pub message: Seq<char>,
}

impl Model {
    /// The state in which a pass starts: the ping is out.
    pub open spec fn initial(config: ConfigView) -> Model {
        Model {
            config,
            phase: Phase::AwaitPing,
            ip: Seq::empty(),
            domain: 0,
            list: Seq::empty(),
            cursor: 0,
            tally: Tally::zero(),
            message: Seq::empty(),
        }
    }

    /// The step that starts a pass: nothing to say, the ping to send.
    pub open spec fn first_step(config: ConfigView) -> StepView {
        StepView {
            notices: Seq::empty(),
            action: ActionView::Send(RequestView::Ping { body: Self::initial(config).key() }),
        }
    }

    /// The credentials, as every request carries them.
    pub open spec fn key(self) -> KeyView {
        KeyView { apikey: self.config.apikey, secretapikey: self.config.secretapikey }
    }

    /// The domain in progress.
    pub open spec fn current(self) -> DomainView {
        self.config.domains[self.domain]
    }

    /// The names of the domain in progress, in processing order.
    pub open spec fn targets(self) -> Seq<Seq<char>> {
        self.current().targets()
    }

    /// What is to be done about the name at index `i`.
    pub open spec fn decision(self, i: int) -> DecisionView {
        decide(self.list, self.targets()[i], self.ip)
    }

    /// The index of the first name at or after `from` that needs an edit, or
    /// the number of names where none does.
    pub open spec fn next_edit(self, from: int) -> int
        decreases self.targets().len() - from,
    {
        if from >= self.targets().len() || self.decision(from) is Edit {
            from
        } else {
            self.next_edit(from + 1)
        }
    }

    /// What there is to say about a name that needs no edit.
    pub open spec fn settled(self, i: int) -> NoticeView {
        if self.decision(i) is Skip {
            NoticeView::Skipped { name: self.targets()[i] }
        } else {
            NoticeView::Missing { name: self.targets()[i] }
        }
    }

    /// What there is to say about the names from `from` up to `to`, none of
    /// which needs an edit.
    pub open spec fn settled_range(self, from: int, to: int) -> Seq<NoticeView> {
        Seq::new((to - from) as nat, |k: int| self.settled(from + k))
    }

    /// The edit that the name at index `i` needs.
    pub open spec fn edit_request(self, i: int) -> RequestView {
        RequestView::Edit {
            apex: self.current().name,
            id: self.decision(i)->id,
            body: EditBodyView {
                apikey: self.config.apikey,
                secretapikey: self.config.secretapikey,
                content: self.decision(i)->content,
                ttl: self.decision(i)->ttl,
            },
        }
    }

    /// Turns to the domain at index `d`, or ends the pass where there is
    /// none. `lead` is what the step has said so far.
    pub open spec fn open(self, d: int, lead: Seq<NoticeView>) -> (Model, StepView) {
        let fresh = Model {
            domain: d,
            list: Seq::empty(),
            cursor: 0,
            tally: Tally::zero(),
            ..self
        };
        if d < self.config.domains.len() {
            let apex = self.config.domains[d].name;
            (
                Model { phase: Phase::AwaitRecords, ..fresh },
                StepView {
                    notices: lead.push(NoticeView::DomainStarted { apex }),
                    action: ActionView::Send(RequestView::Retrieve { apex, body: self.key() }),
                },
            )
        } else {
            (Model { phase: Phase::Finished, ..fresh }, StepView {
                notices: lead,
                action: ActionView::Finish,
            })
        }
    }

    /// Settles the names of the domain in progress from index `from` on,
    /// until one needs an edit or none is left. `tally` counts the names
    /// before `from`; `lead` is what the step has said so far.
    pub open spec fn walk(self, from: int, tally: Tally, lead: Seq<NoticeView>) -> (
        Model,
        StepView,
    ) {
        let stop = self.next_edit(from);
        let said = lead + self.settled_range(from, stop);
        let tally = tally.absorb(self.settled_range(from, stop));
        if stop < self.targets().len() {
            (
                Model { phase: Phase::AwaitEdit, cursor: stop, tally, ..self },
                StepView { notices: said, action: ActionView::Send(self.edit_request(stop)) },
            )
        } else {
            self.open(
                self.domain + 1,
                said.push(NoticeView::Summary { apex: self.current().name, tally }),
            )
        }
    }

    /// What there is to say about the name whose edit was out, given the answer.
    pub open spec fn edited(self, reply: ReplyView) -> NoticeView {
        let name = self.targets()[self.cursor];
        match reply.refused() {
            None => NoticeView::Updated { name },
            Some(message) => NoticeView::UpdateFailed { name, message },
        }
    }

    /// The next state, and what the step yields, given what came back from
    /// the request that was out.
    pub open spec fn step(self, reply: ReplyView) -> (Model, StepView) {
        match self.phase {
            Phase::AwaitPing => match reply.observed() {
                Ok(ip) => Model { ip, ..self }.open(0, Seq::empty()),
                Err(message) => (
                    Model { phase: Phase::Aborted, message, ..self },
                    StepView { notices: Seq::empty(), action: ActionView::Abort { message } },
                ),
            },
            Phase::AwaitRecords => match reply.retrieved() {
                Ok(records) => Model {
                    list: relevant_records(records, self.current().name),
                    ..self
                }.walk(0, Tally::zero(), Seq::empty()),
                Err(message) => self.open(
                    self.domain + 1,
                    seq![NoticeView::DomainFailed { apex: self.current().name, message }],
                ),
            },
            Phase::AwaitEdit => {
                let notice = self.edited(reply);
                self.walk(self.cursor + 1, self.tally.absorb(seq![notice]), seq![notice])
            },
            Phase::Finished => (
                self,
                StepView { notices: Seq::empty(), action: ActionView::Finish },
            ),
            Phase::Aborted => (
                self,
                StepView {
                    notices: Seq::empty(),
                    action: ActionView::Abort { message: self.message },
                },
            ),
        }
    }

    /// What holds of every state that a pass reaches.
    pub open spec fn wf(self) -> bool {
        &&& 0 <= self.domain <= self.config.domains.len()
        &&& (self.phase is AwaitRecords || self.phase is AwaitEdit) ==> self.domain
            < self.config.domains.len()
        &&& self.phase is Finished ==> self.domain == self.config.domains.len()
        &&& self.phase is AwaitEdit ==> {
            &&& 0 <= self.cursor < self.targets().len()
            &&& self.decision(self.cursor) is Edit
            &&& self.tally.total() == self.cursor
            &&& self.holds_relevant()
        }
    }

    /// Every record held for the domain in progress is a relevant one.
    pub open spec fn holds_relevant(self) -> bool {
        forall|k: int|
            0 <= k < self.list.len() ==> relevant(#[trigger] self.list[k], self.current().name)
    }
}

/// `range` extended by the notice about the next name.
pub proof fn lemma_settled_range_push(model: Model, from: int, to: int)
    requires
        from <= to,
    ensures
        model.settled_range(from, to + 1) == model.settled_range(from, to).push(model.settled(to)),
{
    assert(model.settled_range(from, to + 1) =~= model.settled_range(from, to).push(
        model.settled(to),
    ));
}

/// Where no name from `from` up to `to` needs an edit, and the name at `to`
/// does or there is none, the search from `from` ends at `to`.
pub proof fn lemma_next_edit(model: Model, from: int, to: int)
    requires
        0 <= from <= to <= model.targets().len(),
        forall|j: int| from <= j < to ==> !(model.decision(j) is Edit),
        to == model.targets().len() || model.decision(to) is Edit,
    ensures
        model.next_edit(from) == to,
    decreases to - from,
{
    if from < to {
        lemma_next_edit(model, from + 1, to);
    }
}

/// What a run of steps comes to.
pub struct Run {
    /// The state after the last step.
    pub state: Model,
    /// What the steps said, in order.
    pub notices: Seq<NoticeView>,
    /// What each step asked to do next, in order.
    pub actions: Seq<ActionView>,
}

/// Runs the pass from a state through a series of answers, each handed to
/// the step that the one before it led to.
pub open spec fn run_from(model: Model, replies: Seq<ReplyView>) -> Run
    decreases replies.len(),
{
    if replies.len() == 0 {
        Run { state: model, notices: Seq::empty(), actions: Seq::empty() }
    } else {
        let (next, step) = model.step(replies[0]);
        let rest = run_from(next, replies.drop_first());
        Run {
            state: rest.state,
            notices: step.notices + rest.notices,
            actions: seq![step.action] + rest.actions,
        }
    }
}

/// For each request for records that is answered during a run, in order,
/// the index of the domain it was for, and whether the records came.
pub open spec fn fetches(model: Model, replies: Seq<ReplyView>) -> Seq<(int, bool)>
    decreases replies.len(),
{
    if replies.len() == 0 {
        Seq::empty()
    } else {
        let here = if model.phase is AwaitRecords {
            seq![(model.domain, replies[0].retrieved() is Ok)]
        } else {
            Seq::empty()
        };
        here + fetches(model.step(replies[0]).0, replies.drop_first())
    }
}

} // verus!
