//! What a pass reports: the outcome of each name, the counts of each domain,
//! and the lines that say so.

use crate::Status;
use crate::text::decimal;
use crate::text::decimal_text;
use vstd::prelude::*;
use vstd::string::StringExecFns;

verus! {

/// How many names of one domain ended in each outcome.
#[derive(Debug, Clone, Copy, PartialEq, Eq)]
pub struct Report {
    pub changed: usize,
    pub skipped: usize,
    pub errored: usize,
}

/// The mathematical value of a [`Report`].
pub struct Tally {
    pub changed: nat,
    pub skipped: nat,
    pub errored: nat,
}

impl View for Report {
    type V = Tally;

    open spec fn view(&self) -> Tally {
        Tally {
            changed: self.changed as nat,
            skipped: self.skipped as nat,
            errored: self.errored as nat,
        }
    }
}

impl Tally {
    /// The tally before any name is counted.
    pub open spec fn zero() -> Tally {
        Tally { changed: 0, skipped: 0, errored: 0 }
    }

    /// The number of names counted.
    pub open spec fn total(self) -> nat {
        self.changed + self.skipped + self.errored
    }

    /// The tally with one more name of the given outcome.
    pub open spec fn count(self, status: Status) -> Tally {
        match status {
            Status::Change => Tally { changed: self.changed + 1, ..self },
            Status::Skip => Tally { skipped: self.skipped + 1, ..self },
            Status::Error => Tally { errored: self.errored + 1, ..self },
        }
    }
}

impl Report {
    /// The report before any name is counted.
    pub fn new() -> (report: Report)
        ensures
            report@ == Tally::zero(),
    {
        Report { changed: 0, skipped: 0, errored: 0 }
    }

    /// The report with one more name of the given outcome.
    pub fn count(self, status: Status) -> (report: Report)
        requires
            self@.total() < usize::MAX,
        ensures
            report@ == self@.count(status),
    {
        match status {
            Status::Change => Report { changed: self.changed + 1, ..self },
            Status::Skip => Report { skipped: self.skipped + 1, ..self },
            Status::Error => Report { errored: self.errored + 1, ..self },
        }
    }
}

/// One thing a pass has to say.
#[derive(Debug, Clone, PartialEq, Eq)]
pub enum Notice {
    /// Work on the domain begins.
    DomainStarted { apex: String },
    /// The record of the name already held the observed address.
    Skipped { name: String },
    /// The record of the name was edited.
    Updated { name: String },
    /// The edit of the record of the name failed.
    UpdateFailed { name: String, message: String },
    /// The zone has no record of the name.
    Missing { name: String },
    /// Every name of the domain has its outcome.
    Summary { apex: String, report: Report },
    /// The records of the domain could not be had.
    DomainFailed { apex: String, message: String },
}

/// The mathematical value of a [`Notice`].
pub enum NoticeView {
    DomainStarted { apex: Seq<char> },
    Skipped { name: Seq<char> },
    Updated { name: Seq<char> },
    UpdateFailed { name: Seq<char>, message: Seq<char> },
    Missing { name: Seq<char> },
    Summary { apex: Seq<char>, tally: Tally },
    DomainFailed { apex: Seq<char>, message: Seq<char> },
}

impl View for Notice {
    type V = NoticeView;

    open spec fn view(&self) -> NoticeView {
        match self {
            Notice::DomainStarted { apex } => NoticeView::DomainStarted { apex: apex@ },
            Notice::Skipped { name } => NoticeView::Skipped { name: name@ },
            Notice::Updated { name } => NoticeView::Updated { name: name@ },
            Notice::UpdateFailed { name, message } => NoticeView::UpdateFailed {
                name: name@,
                message: message@,
            },
            Notice::Missing { name } => NoticeView::Missing { name: name@ },
            Notice::Summary { apex, report } => NoticeView::Summary { apex: apex@, tally: report@ },
            Notice::DomainFailed { apex, message } => NoticeView::DomainFailed {
                apex: apex@,
                message: message@,
            },
        }
    }
}

impl DeepView for Notice {
    type V = NoticeView;

    open spec fn deep_view(&self) -> NoticeView {
        self@
    }
}

impl Tally {
    /// The tally after counting the outcome of each notice that gives one.
    pub open spec fn absorb(self, notices: Seq<NoticeView>) -> Tally
        decreases notices.len(),
    {
        if notices.len() == 0 {
            self
        } else {
            let before = self.absorb(notices.drop_last());
            match notices.last().status() {
                Some(status) => before.count(status),
                None => before,
            }
        }
    }
}

/// Counting one more notice.
pub proof fn lemma_absorb_push(tally: Tally, notices: Seq<NoticeView>, notice: NoticeView)
    ensures
        tally.absorb(notices.push(notice)) == match notice.status() {
            Some(status) => tally.absorb(notices).count(status),
            None => tally.absorb(notices),
        },
{
    assert(notices.push(notice).drop_last() =~= notices);
}

impl NoticeView {
    /// Whether the notice closes a domain: its summary, or its failure.
    pub open spec fn closes(self) -> bool {
        self is Summary || self is DomainFailed
    }

    /// The outcome that the notice gives to a name, where it gives one.
    pub open spec fn status(self) -> Option<Status> {
        match self {
            NoticeView::Skipped { .. } => Some(Status::Skip),
            NoticeView::Updated { .. } => Some(Status::Change),
            NoticeView::UpdateFailed { .. } => Some(Status::Error),
            NoticeView::Missing { .. } => Some(Status::Error),
            _ => None,
        }
    }

    /// The line that says it.
    pub open spec fn line(self) -> Seq<char> {
        match self {
            NoticeView::DomainStarted { apex } => "Now updating domain: \""@ + apex + "\""@,
            NoticeView::Skipped { name } => "Record \""@ + name + "\" skipped"@,
            NoticeView::Updated { name } => "Record \""@ + name + "\" successfully updated"@,
            NoticeView::UpdateFailed { name, message } => "Record \""@ + name
                + "\" failed to update: "@ + message,
            NoticeView::Missing { name } => "Record \""@ + name + "\" does not exist"@,
            NoticeView::Summary { apex, tally } => "Updated domain records for \""@ + apex + "\": "@
                + decimal(tally.changed) + " Changed, "@ + decimal(tally.skipped) + " Skipped, "@
                + decimal(tally.errored) + " Errored"@,
            NoticeView::DomainFailed { apex, message } => "Failed to update domain \""@ + apex
                + "\": "@ + message,
        }
    }

    /// Whether the line is printed: the closing line of a domain always, the
    /// others only where detail is asked for.
    pub open spec fn shown(self, verbose: bool) -> bool {
        verbose || self.closes()
    }
}

/// The test `shown` for a fixed level of detail.
pub open spec fn shown_at(verbose: bool) -> spec_fn(NoticeView) -> bool {
    |notice: NoticeView| notice.shown(verbose)
}

/// The line of a notice, as a function.
pub open spec fn line_of() -> spec_fn(NoticeView) -> Seq<char> {
    |notice: NoticeView| notice.line()
}

/// The lines printed for a series of notices.
pub open spec fn printed(notices: Seq<NoticeView>, verbose: bool) -> Seq<Seq<char>> {
    notices.filter(shown_at(verbose)).map_values(line_of())
}

/// The test for a notice that closes a domain.
pub open spec fn closing() -> spec_fn(NoticeView) -> bool {
    |notice: NoticeView| notice.closes()
}

/// The notices that close a domain, in order.
pub open spec fn closings(notices: Seq<NoticeView>) -> Seq<NoticeView> {
    notices.filter(closing())
}

impl Notice {
    /// Whether the notice closes a domain.
    pub fn closes(&self) -> (closing: bool)
        ensures
            closing == self@.closes(),
    {
        match self {
            Notice::Summary { .. } => true,
            Notice::DomainFailed { .. } => true,
            _ => false,
        }
    }

    /// The outcome that the notice gives to a name, where it gives one.
    pub fn status(&self) -> (status: Option<Status>)
        ensures
            status == self@.status(),
    {
        match self {
            Notice::Skipped { .. } => Some(Status::Skip),
            Notice::Updated { .. } => Some(Status::Change),
            Notice::UpdateFailed { .. } => Some(Status::Error),
            Notice::Missing { .. } => Some(Status::Error),
            _ => None,
        }
    }

    /// Whether the line is printed at the given level of detail.
    pub fn shown(&self, verbose: bool) -> (show: bool)
        ensures
            show == self@.shown(verbose),
    {
        verbose || self.closes()
    }

    /// The line that says it.
    pub fn line(&self) -> (line: String)
        ensures
            line@ == self@.line(),
    {
        match self {
            Notice::DomainStarted { apex } => {
                let mut line = "Now updating domain: \"".to_owned();
                line.append(apex.as_str());
                line.append("\"");
                line
            },
            Notice::Skipped { name } => {
                let mut line = "Record \"".to_owned();
                line.append(name.as_str());
                line.append("\" skipped");
                line
            },
            Notice::Updated { name } => {
                let mut line = "Record \"".to_owned();
                line.append(name.as_str());
                line.append("\" successfully updated");
                line
            },
            Notice::UpdateFailed { name, message } => {
                let mut line = "Record \"".to_owned();
                line.append(name.as_str());
                line.append("\" failed to update: ");
                line.append(message.as_str());
                line
            },
            Notice::Missing { name } => {
                let mut line = "Record \"".to_owned();
                line.append(name.as_str());
                line.append("\" does not exist");
                line
            },
            Notice::Summary { apex, report } => {
                let mut line = "Updated domain records for \"".to_owned();
                line.append(apex.as_str());
                line.append("\": ");
                line.append(decimal_text(report.changed).as_str());
                line.append(" Changed, ");
                line.append(decimal_text(report.skipped).as_str());
                line.append(" Skipped, ");
                line.append(decimal_text(report.errored).as_str());
                line.append(" Errored");
                line
            },
            Notice::DomainFailed { apex, message } => {
                let mut line = "Failed to update domain \"".to_owned();
                line.append(apex.as_str());
                line.append("\": ");
                line.append(message.as_str());
                line
            },
        }
    }
}

/// The lines to print for a series of notices, in their order.
pub fn lines(notices: &Vec<Notice>, verbose: bool) -> (out: Vec<String>)
    ensures
        out.deep_view() == printed(notices.deep_view(), verbose),
{
    let mut out: Vec<String> = Vec::new();
    let ghost all = notices.deep_view();
    let ghost keep = shown_at(verbose);
    let ghost say = line_of();
    let mut i: usize = 0;
    proof {
        reveal(Seq::filter);
        assert(all.take(0) =~= Seq::empty());
        assert(out.deep_view() =~= all.take(0).filter(keep).map_values(say));
    }
    while i < notices.len()
        invariant
            i <= notices.len(),
            all == notices.deep_view(),
            keep == shown_at(verbose),
            say == line_of(),
            out.deep_view() == all.take(i as int).filter(keep).map_values(say),
        decreases notices.len() - i,
    {
        let ghost before = out.deep_view();
        proof {
            all.lemma_take_succ_push(i as int);
            all.take(i as int).lemma_filter_push(all[i as int], keep);
        }
        if notices[i].shown(verbose) {
            let line = notices[i].line();
            out.push(line);
            assert(out.deep_view() =~= before.push(line@));
            assert(all.take(i + 1).filter(keep).map_values(say) =~= before.push(line@));
        }
        i += 1;
    }
    assert(all.take(notices.len() as int) =~= all);
    assert(out.deep_view() =~= printed(notices.deep_view(), verbose));
    out
}

} // verus!
