//! The pass as it runs: the caller sends each request, hands back what came
//! of it, prints what the step has to say, and goes on until the pass ends.

use crate::command::Edit as EditBody;
use crate::command::Key;
use crate::config::Config;
use crate::laws::steps::lemma_edit_only_where_stale;
use crate::laws::steps::lemma_summary_counts_every_name;
use crate::laws::steps::warranted;
use crate::model::ActionView;
use crate::model::lemma_next_edit;
use crate::model::lemma_settled_range_push;
use crate::model::Model;
use crate::model::Phase;
use crate::model::StepView;
use crate::notice::lemma_absorb_push;
use crate::notice::Notice;
use crate::notice::NoticeView;
use crate::notice::Report;
use crate::reconcile::decide_target;
use crate::reconcile::Decision;
use crate::reconcile::filter_records;
use crate::reconcile::lemma_relevant_records;
use crate::response::Record;
use crate::Status;
use crate::wire::Reply;
use crate::wire::Request;
use vstd::prelude::*;

verus! {

/// What to do next.
#[derive(Debug, Clone, PartialEq, Eq)]
pub enum Action {
    /// Send the request and hand back what came of it.
    Send(Request),
    /// The pass is complete: leave with success.
    Finish,
    /// The pass cannot go on: leave with the message as the error.
    Abort { message: String },
}

impl View for Action {
    type V = ActionView;

    open spec fn view(&self) -> ActionView {
        match self {
            Action::Send(request) => ActionView::Send(request@),
            Action::Finish => ActionView::Finish,
            Action::Abort { message } => ActionView::Abort { message: message@ },
        }
    }
}

/// What one step of a pass yields.
#[derive(Debug, Clone, PartialEq, Eq)]
pub struct Step {
    /// What there is to say, in order.
    pub notices: Vec<Notice>,
    /// What to do next.
    pub action: Action,
}

impl View for Step {
    type V = StepView;

    open spec fn view(&self) -> StepView {
        StepView { notices: self.notices.deep_view(), action: self.action@ }
    }
}

/// A pass in progress. Its value is the state of the pass as the model
/// describes it; every engine that exists is in a well-formed state.
#[derive(Debug)]
pub struct Engine {
    config: Config,
    phase: Phase,
    ip: String,
    domain: usize,
    targets: Vec<String>,
    list: Vec<Record>,
    cursor: usize,
    report: Report,
    message: String,
}

impl View for Engine {
    type V = Model;

    closed spec fn view(&self) -> Model {
        Model {
            config: self.config@,
            phase: self.phase,
            ip: self.ip@,
            domain: self.domain as int,
            list: self.list.deep_view(),
            cursor: self.cursor as int,
            tally: self.report@,
            message: self.message@,
        }
    }
}

/// The domains of a configuration and their values, index by index.
proof fn lemma_domains(config: &Config)
    ensures
        config@.domains.len() == config.domains.len(),
        forall|d: int|
            0 <= d < config.domains.len() ==> #[trigger] config@.domains[d] == config.domains@[d]@,
{
}

impl Engine {
    /// The state is well-formed, and while an edit is out the names of the
    /// domain in progress are at hand.
    #[verifier::type_invariant]
    spec fn inv(self) -> bool {
        &&& self@.wf()
        &&& self.phase is AwaitEdit ==> self.targets.deep_view() == self@.targets()
    }

    /// Where the pass stands.
    pub fn phase(&self) -> (phase: Phase)
        ensures
            phase == self@.phase,
    {
        self.phase
    }

    /// The credentials, as every request carries them.
    fn key(&self) -> (key: Key)
        ensures
            key@ == self@.key(),
    {
        Key { apikey: self.config.apikey.clone(), secretapikey: self.config.secretapikey.clone() }
    }

    /// Starts a pass over the configured domains: the first step has nothing
    /// to say and asks for the ping.
    pub fn start(config: Config) -> (next: (Engine, Step))
        ensures
            next.0@ == Model::initial(config@),
            next.1@ == Model::first_step(config@),
            next.0@.wf(),
    {
        let engine = Engine {
            config,
            phase: Phase::AwaitPing,
            ip: String::new(),
            domain: 0,
            targets: Vec::new(),
            list: Vec::new(),
            cursor: 0,
            report: Report::new(),
            message: String::new(),
        };
        let body = engine.key();
        let notices: Vec<Notice> = Vec::new();
        assert(notices.deep_view() =~= Seq::empty());
        assert(engine.list.deep_view() =~= Seq::empty());
        (engine, Step { notices, action: Action::Send(Request::Ping { body }) })
    }

    /// Turns to the domain at index `d`, or ends the pass where there is none.
    fn open(self, d: usize, lead: Vec<Notice>) -> (next: (Engine, Step))
        requires
            d <= self.config.domains.len(),
        ensures
            (next.0@, next.1@) == self@.open(d as int, lead.deep_view()),
            next.0@.wf(),
    {
        proof {
            lemma_domains(&self.config);
        }
        let body = self.key();
        let mut notices = lead;
        let list: Vec<Record> = Vec::new();
        assert(list.deep_view() =~= Seq::empty());
        if d < self.config.domains.len() {
            let apex = self.config.domains[d].name.clone();
            let ghost before = notices.deep_view();
            notices.push(Notice::DomainStarted { apex: apex.clone() });
            assert(notices.deep_view() =~= before.push(NoticeView::DomainStarted { apex: apex@ }));
            let engine = Engine {
                phase: Phase::AwaitRecords,
                domain: d,
                targets: Vec::new(),
                list,
                cursor: 0,
                report: Report::new(),
                ..self
            };
            (engine, Step { notices, action: Action::Send(Request::Retrieve { apex, body }) })
        } else {
            let engine = Engine {
                phase: Phase::Finished,
                domain: d,
                targets: Vec::new(),
                list,
                cursor: 0,
                report: Report::new(),
                ..self
            };
            (engine, Step { notices, action: Action::Finish })
        }
    }

    /// Settles the names of the domain in progress from index `from` on,
    /// until one needs an edit or none is left.
    fn walk(self, from: usize, report: Report, lead: Vec<Notice>) -> (next: (Engine, Step))
        requires
            self.phase is AwaitRecords || self.phase is AwaitEdit,
            self.targets.deep_view() == self@.targets(),
            self@.holds_relevant(),
            from <= self.targets.len(),
            report@.total() == from,
        ensures
            (next.0@, next.1@) == self@.walk(from as int, report@, lead.deep_view()),
            next.0@.wf(),
    {
        proof {
            use_type_invariant(&self);
            lemma_domains(&self.config);
        }
        let ghost model = self@;
        let ghost tally = report@;
        let ghost said = lead.deep_view();
        let mut notices = lead;
        let mut counted = report;
        let mut pending: Option<Request> = None;
        let mut i: usize = from;
        assert(model.settled_range(from as int, from as int) =~= Seq::empty());
        assert(notices.deep_view() =~= said + model.settled_range(from as int, i as int));
        while pending.is_none() && i < self.targets.len()
            invariant
                from <= i <= self.targets.len(),
                model == self@,
                self.domain < self.config.domains.len(),
                model.current() == self.config.domains@[self.domain as int]@,
                self.targets.deep_view() == model.targets(),
                forall|j: int| from <= j < i ==> !(model.decision(j) is Edit),
                notices.deep_view() == said + model.settled_range(from as int, i as int),
                counted@ == tally.absorb(model.settled_range(from as int, i as int)),
                counted@.total() == i,
                pending matches Some(request) ==> {
                    &&& i < self.targets.len()
                    &&& model.decision(i as int) is Edit
                    &&& request@ == model.edit_request(i as int)
                },
            decreases self.targets.len() - i + if pending.is_none() { 1nat } else { 0nat },
        {
            let decision = decide_target(
                &self.list,
                self.targets[i].as_str(),
                self.ip.as_str(),
            );
            assert(decision@ == model.decision(i as int));
            match decision {
                Decision::Edit { id, content, ttl } => {
                    pending = Some(
                        Request::Edit {
                            apex: self.config.domains[self.domain].name.clone(),
                            id,
                            body: EditBody {
                                apikey: self.config.apikey.clone(),
                                secretapikey: self.config.secretapikey.clone(),
                                content,
                                ttl,
                            },
                        },
                    );
                },
                settled => {
                    let name = self.targets[i].clone();
                    let (notice, status) = match settled {
                        Decision::Skip => (Notice::Skipped { name }, Status::Skip),
                        _ => (Notice::Missing { name }, Status::Error),
                    };
                    let ghost before = notices.deep_view();
                    notices.push(notice);
                    counted = counted.count(status);
                    proof {
                        lemma_settled_range_push(model, from as int, i as int);
                        lemma_absorb_push(
                            tally,
                            model.settled_range(from as int, i as int),
                            model.settled(i as int),
                        );
                        assert(notices.deep_view() =~= before.push(model.settled(i as int)));
                    }
                    i += 1;
                },
            }
        }
        proof {
            assert(self.targets.deep_view().len() == self.targets.len());
            lemma_next_edit(model, from as int, i as int);
        }
        match pending {
            Some(request) => {
                let engine = Engine { phase: Phase::AwaitEdit, cursor: i, report: counted, ..self };
                (engine, Step { notices, action: Action::Send(request) })
            },
            None => {
                let ghost before = notices.deep_view();
                let apex = self.config.domains[self.domain].name.clone();
                notices.push(Notice::Summary { apex, report: counted });
                assert(notices.deep_view() =~= before.push(
                    NoticeView::Summary { apex: model.current().name, tally: counted@ },
                ));
                let d = self.domain + 1;
                self.open(d, notices)
            },
        }
    }

    /// Takes what came back from the request that was out, and yields the
    /// next step. On a finished or aborted pass nothing changes, and the
    /// step only repeats how the pass ended.
    ///
    /// A summary that the step reports counts every name of its domain, and
    /// an edit that it asks for is called for by the record it addresses.
    pub fn step(self, reply: Reply) -> (next: (Engine, Step))
        ensures
            (next.0@, next.1@) == self@.step(reply@),
            next.0@.wf(),
            forall|k: int|
                0 <= k < next.1@.notices.len() && (#[trigger] next.1@.notices[k]) is Summary
                    ==> next.1@.notices[k]->tally.total() == self@.targets().len(),
            next.1@.action matches ActionView::Send(request) ==> (request is Edit ==> warranted(
                next.0@,
                request,
            )),
    {
        proof {
            use_type_invariant(&self);
            lemma_domains(&self.config);
            assert forall|k: int|
                0 <= k < self@.step(reply@).1.notices.len() && (
                #[trigger] self@.step(reply@).1.notices[k]) is Summary implies self@.step(
                reply@,
            ).1.notices[k]->tally.total() == self@.targets().len() by {
                lemma_summary_counts_every_name(self@, reply@, k);
            }
            if self@.step(reply@).1.action is Send && self@.step(reply@).1.action->Send_0 is Edit {
                lemma_edit_only_where_stale(self@, reply@);
            }
        }
        let notices: Vec<Notice> = Vec::new();
        assert(notices.deep_view() =~= Seq::empty());
        match self.phase {
            Phase::AwaitPing => match reply.observed() {
                Ok(ip) => {
                    let engine = Engine { ip, ..self };
                    engine.open(0, notices)
                },
                Err(message) => {
                    let action = Action::Abort { message: message.clone() };
                    let engine = Engine { phase: Phase::Aborted, message, ..self };
                    (engine, Step { notices, action })
                },
            },
            Phase::AwaitRecords => match reply.retrieved() {
                Ok(records) => {
                    let list = filter_records(
                        &records,
                        self.config.domains[self.domain].name.as_str(),
                    );
                    let targets = self.config.domains[self.domain].targets();
                    proof {
                        lemma_relevant_records(records.deep_view(), self@.current().name);
                    }
                    let engine = Engine { list, targets, ..self };
                    engine.walk(0, Report::new(), notices)
                },
                Err(message) => {
                    let mut notices = notices;
                    let apex = self.config.domains[self.domain].name.clone();
                    notices.push(Notice::DomainFailed { apex, message });
                    assert(notices.deep_view() =~= seq![
                        NoticeView::DomainFailed {
                            apex: self@.current().name,
                            message: message@,
                        },
                    ]);
                    let d = self.domain + 1;
                    self.open(d, notices)
                },
            },
            Phase::AwaitEdit => {
                assert(self.targets.deep_view().len() == self.targets.len());
                let name = self.targets[self.cursor].clone();
                let (notice, status) = match reply.refused() {
                    None => (Notice::Updated { name }, Status::Change),
                    Some(message) => (Notice::UpdateFailed { name, message }, Status::Error),
                };
                assert(notice@ == self@.edited(reply@));
                proof {
                    lemma_absorb_push(self@.tally, Seq::empty(), notice@);
                    assert(Seq::<NoticeView>::empty().push(notice@) =~= seq![notice@]);
                }
                let report = self.report.count(status);
                let mut notices = notices;
                notices.push(notice);
                assert(notices.deep_view() =~= seq![self@.edited(reply@)]);
                let from = self.cursor + 1;
                self.walk(from, report, notices)
            },
            Phase::Finished => (self, Step { notices, action: Action::Finish }),
            Phase::Aborted => {
                let action = Action::Abort { message: self.message.clone() };
                (self, Step { notices, action })
            },
        }
    }
}

} // verus!
