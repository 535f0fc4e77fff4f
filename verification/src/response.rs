//! What the registrar answers, after decoding.

use vstd::prelude::*;

verus! {

/// The body of an answer with status `ERROR`.
#[derive(Debug, Clone, PartialEq, Eq)]
pub struct ErrorRes {
    pub message: String,
}

/// The answer to a ping.
#[derive(Debug, Clone, PartialEq, Eq)]
pub enum Ping {
    /// Status `SUCCESS`: the address the registrar saw the request come from.
    Success { your_ip: String },
    /// Status `ERROR`.
    Error(ErrorRes),
}

/// The answer to a request for the records of a zone.
#[derive(Debug, Clone, PartialEq, Eq)]
pub enum Records {
    /// Status `SUCCESS`: the records as the registrar listed them.
    Success { records: Vec<Record> },
    /// Status `ERROR`.
    Error(ErrorRes),
}

/// One DNS record as the registrar holds it.
#[derive(Debug, PartialEq, Eq)]
pub struct Record {
    pub id: String,
    pub name: String,
    pub rec_type: String,
    pub content: String,
    pub ttl: Option<String>,
    pub prio: Option<String>,
    pub notes: Option<String>,
}

/// The answer to an edit.
#[derive(Debug, Clone, PartialEq, Eq)]
pub enum Edit {
    /// Status `SUCCESS`.
    Success,
    /// Status `ERROR`.
    Error(ErrorRes),
}

/// The mathematical value of an [`ErrorRes`].
pub struct ErrorResView {
    pub message: Seq<char>,
}

/// The mathematical value of a [`Ping`].
pub enum PingView {
    Success { your_ip: Seq<char> },
    Error(ErrorResView),
}

/// The mathematical value of a [`Records`].
pub enum RecordsView {
    Success { records: Seq<RecordView> },
    Error(ErrorResView),
}

/// The mathematical value of a [`Record`].
pub struct RecordView {
    pub id: Seq<char>,
    pub name: Seq<char>,
    pub rec_type: Seq<char>,
    pub content: Seq<char>,
    pub ttl: Option<Seq<char>>,
    pub prio: Option<Seq<char>>,
    pub notes: Option<Seq<char>>,
}

/// The mathematical value of an [`Edit`].
pub enum EditView {
    Success,
    Error(ErrorResView),
}

impl View for ErrorRes {
    type V = ErrorResView;

    open spec fn view(&self) -> ErrorResView {
        ErrorResView { message: self.message@ }
    }
}

impl View for Ping {
    type V = PingView;

    open spec fn view(&self) -> PingView {
        match self {
            Ping::Success { your_ip } => PingView::Success { your_ip: your_ip@ },
            Ping::Error(e) => PingView::Error(e@),
        }
    }
}

impl View for Record {
    type V = RecordView;

    open spec fn view(&self) -> RecordView {
        RecordView {
            id: self.id@,
            name: self.name@,
            rec_type: self.rec_type@,
            content: self.content@,
            ttl: self.ttl.deep_view(),
            prio: self.prio.deep_view(),
            notes: self.notes.deep_view(),
        }
    }
}

impl DeepView for Record {
    type V = RecordView;

    open spec fn deep_view(&self) -> RecordView {
        self@
    }
}

impl View for Records {
    type V = RecordsView;

    open spec fn view(&self) -> RecordsView {
        match self {
            Records::Success { records } => RecordsView::Success { records: records.deep_view() },
            Records::Error(e) => RecordsView::Error(e@),
        }
    }
}

impl View for Edit {
    type V = EditView;

    open spec fn view(&self) -> EditView {
        match self {
            Edit::Success => EditView::Success,
            Edit::Error(e) => EditView::Error(e@),
        }
    }
}

fn copy_text(text: &Option<String>) -> (copy: Option<String>)
    ensures
        copy.deep_view() == text.deep_view(),
{
    match text {
        Some(t) => Some(t.clone()),
        None => None,
    }
}

impl Clone for Record {
    fn clone(&self) -> (copy: Record)
        ensures
            copy@ == self@,
    {
        Record {
            id: self.id.clone(),
            name: self.name.clone(),
            rec_type: self.rec_type.clone(),
            content: self.content.clone(),
            ttl: copy_text(&self.ttl),
            prio: copy_text(&self.prio),
            notes: copy_text(&self.notes),
        }
    }
}

} // verus!
