//! The bodies of the requests sent to the registrar.

use vstd::prelude::*;

verus! {

/// The credentials, as the body of a ping and of a request for records.
#[derive(Debug, Clone, PartialEq, Eq)]
pub struct Key {
    pub apikey: String,
    pub secretapikey: String,
}

/// The body of an edit: the credentials and the two fields that change.
#[derive(Debug, Clone, PartialEq, Eq)]
pub struct Edit {
    pub apikey: String,
    pub secretapikey: String,
    pub content: String,
    pub ttl: String,
}

/// The mathematical value of a [`Key`].
pub struct KeyView {
    pub apikey: Seq<char>,
    pub secretapikey: Seq<char>,
}

/// The mathematical value of an [`Edit`].
pub struct EditView {
    pub apikey: Seq<char>,
    pub secretapikey: Seq<char>,
    pub content: Seq<char>,
    pub ttl: Seq<char>,
}

impl View for Key {
    type V = KeyView;

    open spec fn view(&self) -> KeyView {
        KeyView { apikey: self.apikey@, secretapikey: self.secretapikey@ }
    }
}

impl View for Edit {
    type V = EditView;

    open spec fn view(&self) -> EditView {
        EditView {
            apikey: self.apikey@,
            secretapikey: self.secretapikey@,
            content: self.content@,
            ttl: self.ttl@,
        }
    }
}

} // verus!
