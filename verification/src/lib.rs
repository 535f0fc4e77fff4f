//! Reconciles the "A" records that a DNS registrar holds for a list of names
//! with the public IPv4 address of the machine it runs on.
//!
//! The crate decides and never talks to the registrar itself. A pass is an
//! [`engine::Engine`]: it hands out one request at a time, takes what came
//! back, and says what there is to print. [`model`] describes the same
//! pass over mathematical values, [`reconcile`] holds the rules for a
//! single name, and [`laws`] proves what holds of every pass.

pub mod command;
pub mod config;
pub mod engine;
pub mod laws;
pub mod model;
pub mod notice;
pub mod reconcile;
pub mod response;
pub mod text;
pub mod wire;

use crate::text::has_suffix;
use vstd::prelude::*;
use vstd::string::StringExecFns;

verus! {

/// The outcome of one name in a pass.
#[derive(Debug, Clone, Copy, PartialEq, Eq, Structural)]
pub enum Status {
    /// The record was edited.
    Change,
    /// The record already held the observed address.
    Skip,
    /// The record is missing, or its edit failed.
    Error,
}

/// The folder that holds the configuration, where none is given.
pub const DEFAULT_DATA: &'static str = "data/";

/// What the command line asks for.
#[derive(Debug, Clone, PartialEq, Eq)]
pub struct Opts {
    /// Print how to use the program.
    pub help: bool,
    /// The folder that holds the configuration.
    pub data: String,
    /// Say what became of each name, besides the line that closes each domain.
    pub verbose: bool,
}

/// The mathematical value of an [`Opts`].
pub struct OptsView {
    pub help: bool,
    pub data: Seq<char>,
    pub verbose: bool,
}

impl View for Opts {
    type V = OptsView;

    open spec fn view(&self) -> OptsView {
        OptsView { help: self.help, data: self.data@, verbose: self.verbose }
    }
}

/// A path to a folder, ending in the separator: the path itself where it
/// ends in one, else the path with one added.
pub open spec fn with_separator(path: Seq<char>) -> Seq<char> {
    if "/"@.is_suffix_of(path) {
        path
    } else {
        path + "/"@
    }
}

impl Default for Opts {
    /// No help, the default folder, no detail.
    fn default() -> (opts: Opts)
        ensures
            opts@ == (OptsView { help: false, data: DEFAULT_DATA@, verbose: false }),
    {
        Opts { help: false, data: DEFAULT_DATA.to_owned(), verbose: false }
    }
}

/// A path that ends in the separator is left as it is by adding one: adding
/// the separator twice adds it once.
pub proof fn lemma_separator_added_once(path: Seq<char>)
    ensures
        "/"@.is_suffix_of(with_separator(path)),
        with_separator(with_separator(path)) == with_separator(path),
{
    if !"/"@.is_suffix_of(path) {
        let whole = path + "/"@;
        assert(whole.subrange(whole.len() - "/"@.len(), whole.len() as int) =~= "/"@);
    }
}

/// Gives a path to a folder its separator at the end, where it has none.
pub fn end_with_separator(path: &str) -> (folder: String)
    ensures
        folder@ == with_separator(path@),
{
    if has_suffix(path, "/") {
        path.to_owned()
    } else {
        concat(path, "/")
    }
}

impl Opts {
    /// The folder that holds the configuration, ending in the separator.
    pub fn data_folder(&self) -> (folder: String)
        ensures
            folder@ == with_separator(self@.data),
    {
        end_with_separator(self.data.as_str())
    }
}

/// Joins two strings: the characters of `a` followed by those of `b`.
pub fn concat(a: &str, b: &str) -> (result: String)
    ensures
        result@ == a@ + b@,
{
    let mut result: String = String::new();
    result.append(a);
    result.append(b);
    result
}

} // verus!
