//! The exchanges with the registrar: what is sent, where to, and what came back.

use crate::command::Edit as EditBody;
use crate::command::EditView as EditBodyView;
use crate::command::Key;
use crate::command::KeyView;
use crate::response::Edit;
use crate::response::EditView;
use crate::response::Ping;
use crate::response::PingView;
use crate::response::Record;
use crate::response::Records;
use crate::response::RecordsView;
use crate::response::RecordView;
use vstd::prelude::*;
use vstd::string::StringExecFns;

verus! {

/// The address under which the registrar serves its endpoints.
pub const BASE_URL: &'static str = "https://porkbun.com/api/json/v3";

/// The message that stands for an exchange that failed before a well-formed
/// answer arrived: no connection, a timeout, a body that could not be decoded.
pub const TRANSPORT_FAILURE: &'static str = "transport error";

/// A request to the registrar. Each is sent with `POST` and a JSON body.
#[derive(Debug, Clone, PartialEq, Eq)]
#[allow(inconsistent_fields)]
pub enum Request {
    /// Asks which address the registrar sees this machine under.
    Ping { body: Key },
    /// Asks for the records of the zone of `apex`.
    Retrieve { apex: String, body: Key },
    /// Replaces content and time to live of the record `id` in the zone of `apex`.
    Edit { apex: String, id: String, body: EditBody },
}

/// The mathematical value of a [`Request`].
#[allow(inconsistent_fields)]
pub enum RequestView {
    Ping { body: KeyView },
    Retrieve { apex: Seq<char>, body: KeyView },
    Edit { apex: Seq<char>, id: Seq<char>, body: EditBodyView },
}

impl View for Request {
    type V = RequestView;

    open spec fn view(&self) -> RequestView {
        match self {
            Request::Ping { body } => RequestView::Ping { body: body@ },
            Request::Retrieve { apex, body } => RequestView::Retrieve { apex: apex@, body: body@ },
            Request::Edit { apex, id, body } => RequestView::Edit {
                apex: apex@,
                id: id@,
                body: body@,
            },
        }
    }
}

impl RequestView {
    /// The endpoint, relative to the registrar's base address.
    pub open spec fn path(self) -> Seq<char> {
        match self {
            RequestView::Ping { .. } => "/ping"@,
            RequestView::Retrieve { apex, .. } => "/dns/retrieve/"@ + apex,
            RequestView::Edit { apex, id, .. } => "/dns/edit/"@ + apex + "/"@ + id,
        }
    }

    /// The full address the request goes to.
    pub open spec fn url(self) -> Seq<char> {
        BASE_URL@ + self.path()
    }
}

impl Request {
    /// The endpoint, relative to the registrar's base address.
    pub fn path(&self) -> (path: String)
        ensures
            path@ == self@.path(),
    {
        match self {
            Request::Ping { .. } => "/ping".to_owned(),
            Request::Retrieve { apex, .. } => {
                let mut path = "/dns/retrieve/".to_owned();
                path.append(apex.as_str());
                path
            },
            Request::Edit { apex, id, .. } => {
                let mut path = "/dns/edit/".to_owned();
                path.append(apex.as_str());
                path.append("/");
                path.append(id.as_str());
                path
            },
        }
    }

    /// The full address the request goes to.
    pub fn url(&self) -> (url: String)
        ensures
            url@ == self@.url(),
    {
        let mut url = BASE_URL.to_owned();
        let path = self.path();
        url.append(path.as_str());
        url
    }
}

/// What came back from an exchange.
#[derive(Debug, Clone, PartialEq, Eq)]
pub enum Reply {
    /// A decoded answer to a ping.
    Ping(Ping),
    /// A decoded answer to a request for records.
    Records(Records),
    /// A decoded answer to an edit.
    Edit(Edit),
    /// No well-formed answer arrived.
    Failed,
}

/// The mathematical value of a [`Reply`].
pub enum ReplyView {
    Ping(PingView),
    Records(RecordsView),
    Edit(EditView),
    Failed,
}

impl View for Reply {
    type V = ReplyView;

    open spec fn view(&self) -> ReplyView {
        match self {
            Reply::Ping(ping) => ReplyView::Ping(ping@),
            Reply::Records(records) => ReplyView::Records(records@),
            Reply::Edit(edit) => ReplyView::Edit(edit@),
            Reply::Failed => ReplyView::Failed,
        }
    }
}

impl ReplyView {
    /// Read as the answer to a ping: the observed address, or why there is
    /// none. An answer of another kind counts as a failed exchange.
    pub open spec fn observed(self) -> Result<Seq<char>, Seq<char>> {
        match self {
            ReplyView::Ping(PingView::Success { your_ip }) => Ok(your_ip),
            ReplyView::Ping(PingView::Error(e)) => Err(e.message),
            _ => Err(TRANSPORT_FAILURE@),
        }
    }

    /// Read as the answer to a request for records: the records, or why
    /// there are none. An answer of another kind counts as a failed exchange.
    pub open spec fn retrieved(self) -> Result<Seq<RecordView>, Seq<char>> {
        match self {
            ReplyView::Records(RecordsView::Success { records }) => Ok(records),
            ReplyView::Records(RecordsView::Error(e)) => Err(e.message),
            _ => Err(TRANSPORT_FAILURE@),
        }
    }

    /// Read as the answer to an edit: why it failed, if it did. An answer of
    /// another kind counts as a failed exchange.
    pub open spec fn refused(self) -> Option<Seq<char>> {
        match self {
            ReplyView::Edit(EditView::Success) => None,
            ReplyView::Edit(EditView::Error(e)) => Some(e.message),
            _ => Some(TRANSPORT_FAILURE@),
        }
    }
}

impl Reply {
    /// Reads the reply as the answer to a ping.
    pub fn observed(self) -> (result: Result<String, String>)
        ensures
            match result {
                Ok(ip) => self@.observed() == Ok::<Seq<char>, Seq<char>>(ip@),
                Err(message) => self@.observed() == Err::<Seq<char>, Seq<char>>(message@),
            },
    {
        match self {
            Reply::Ping(Ping::Success { your_ip }) => Ok(your_ip),
            Reply::Ping(Ping::Error(e)) => Err(e.message),
            _ => Err(TRANSPORT_FAILURE.to_owned()),
        }
    }

    /// Reads the reply as the answer to a request for records.
    pub fn retrieved(self) -> (result: Result<Vec<Record>, String>)
        ensures
            match result {
                Ok(records) => self@.retrieved() == Ok::<Seq<RecordView>, Seq<char>>(
                    records.deep_view(),
                ),
                Err(message) => self@.retrieved() == Err::<Seq<RecordView>, Seq<char>>(message@),
            },
    {
        match self {
            Reply::Records(Records::Success { records }) => Ok(records),
            Reply::Records(Records::Error(e)) => Err(e.message),
            _ => Err(TRANSPORT_FAILURE.to_owned()),
        }
    }

    /// Reads the reply as the answer to an edit.
    pub fn refused(self) -> (result: Option<String>)
        ensures
            result.deep_view() == self@.refused(),
    {
        match self {
            Reply::Edit(Edit::Success) => None,
            Reply::Edit(Edit::Error(e)) => Some(e.message),
            _ => Some(TRANSPORT_FAILURE.to_owned()),
        }
    }
}

} // verus!
