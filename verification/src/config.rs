//! The configuration: credentials and the names to keep current.

use crate::end_with_separator;
use crate::with_separator;
use vstd::prelude::*;
use vstd::string::StringExecFns;

verus! {

/// The name of the configuration file inside its folder.
pub const FILE_NAME: &'static str = "config.toml";

/// What is written to a configuration file that is found empty.
pub const TEMPLATE: &'static str =
    "apikey = \"\"\nsecretapikey = \"\"\n\n[[domains]]\nname = \"example.com\"\nupdate_tld = false\nsubdomains = []";

/// What is said after the template was written.
pub const NOT_CONFIGURED: &'static str =
    "Config file does not exist. Please fill out generated config file before running again.";

/// The credentials and the domains, in the order the file lists them.
#[derive(Debug, Clone, PartialEq, Eq)]
pub struct Config {
    pub apikey: String,
    pub secretapikey: String,
    pub domains: Vec<Domain>,
}

/// One registered domain and the names under it to keep current.
#[derive(Debug, Clone, PartialEq, Eq)]
pub struct Domain {
    /// The apex, such as `example.com`.
    pub name: String,
    /// Whether the record of the apex itself is kept current.
    pub update_tld: bool,
    /// The labels of the subdomains to keep current, such as `www`.
    pub subdomains: Vec<String>,
}

/// The mathematical value of a [`Config`].
pub struct ConfigView {
    pub apikey: Seq<char>,
    pub secretapikey: Seq<char>,
    pub domains: Seq<DomainView>,
}

/// The mathematical value of a [`Domain`].
pub struct DomainView {
    pub name: Seq<char>,
    pub update_tld: bool,
    pub subdomains: Seq<Seq<char>>,
}

impl View for Domain {
    type V = DomainView;

    open spec fn view(&self) -> DomainView {
        DomainView {
            name: self.name@,
            update_tld: self.update_tld,
            subdomains: self.subdomains.deep_view(),
        }
    }
}

impl DeepView for Domain {
    type V = DomainView;

    open spec fn deep_view(&self) -> DomainView {
        self@
    }
}

impl View for Config {
    type V = ConfigView;

    open spec fn view(&self) -> ConfigView {
        ConfigView {
            apikey: self.apikey@,
            secretapikey: self.secretapikey@,
            domains: self.domains.deep_view(),
        }
    }
}

impl DomainView {
    /// The fully-qualified name of the subdomain with the given label.
    pub open spec fn qualified(self, label: Seq<char>) -> Seq<char> {
        label + seq!['.'] + self.name
    }

    /// The names to reconcile, in the order they are processed: the apex
    /// first where it is enabled, then the subdomains as configured.
    pub open spec fn targets(self) -> Seq<Seq<char>> {
        let apex = if self.update_tld {
            seq![self.name]
        } else {
            Seq::empty()
        };
        apex + Seq::new(self.subdomains.len(), |i: int| self.qualified(self.subdomains[i]))
    }
}

impl Domain {
    /// The fully-qualified name of the subdomain with the given label.
    pub fn qualified(&self, label: &str) -> (name: String)
        ensures
            name@ == self@.qualified(label@),
    {
        let mut name = label.to_owned();
        name.append(".");
        name.append(self.name.as_str());
        proof {
            reveal_strlit(".");
            assert("."@ =~= seq!['.']);
        }
        name
    }

    /// The names to reconcile, in the order they are processed.
    pub fn targets(&self) -> (names: Vec<String>)
        ensures
            names.deep_view() == self@.targets(),
    {
        let mut names: Vec<String> = Vec::new();
        if self.update_tld {
            names.push(self.name.clone());
        }
        let ghost apex = names.deep_view();
        assert(apex =~= if self.update_tld {
            seq![self.name@]
        } else {
            Seq::empty()
        });
        let mut i: usize = 0;
        while i < self.subdomains.len()
            invariant
                i <= self.subdomains.len(),
                names.deep_view() == apex + Seq::new(
                    i as nat,
                    |k: int| self@.qualified(self@.subdomains[k]),
                ),
            decreases self.subdomains.len() - i,
        {
            let name = self.qualified(self.subdomains[i].as_str());
            let ghost before = names.deep_view();
            names.push(name);
            assert(names.deep_view() =~= before.push(name@));
            i += 1;
            assert(names.deep_view() =~= apex + Seq::new(
                i as nat,
                |k: int| self@.qualified(self@.subdomains[k]),
            ));
        }
        assert(names.deep_view() =~= self@.targets());
        names
    }
}

/// What to do with the configuration file, once it was opened and read, or
/// could not be.
#[derive(Debug, Clone, PartialEq, Eq)]
pub enum Loading {
    /// The file could not be opened: give up with the message.
    Unreadable { message: String },
    /// The file is empty: write the template to it, then give up with the message.
    Blank { template: String, message: String },
    /// The file has text: parse it.
    Filled,
}

/// The mathematical value of a [`Loading`].
pub enum LoadingView {
    Unreadable { message: Seq<char> },
    Blank { template: Seq<char>, message: Seq<char> },
    Filled,
}

impl View for Loading {
    type V = LoadingView;

    open spec fn view(&self) -> LoadingView {
        match self {
            Loading::Unreadable { message } => LoadingView::Unreadable { message: message@ },
            Loading::Blank { template, message } => LoadingView::Blank {
                template: template@,
                message: message@,
            },
            Loading::Filled => LoadingView::Filled,
        }
    }
}

/// The path of the configuration file in a folder whose path ends in the
/// separator: the name of the file straight after it.
pub open spec fn file_path(folder: Seq<char>) -> Seq<char> {
    folder + FILE_NAME@
}

/// What is said where the folder, whose path ends in the separator, cannot
/// be opened.
pub open spec fn open_error(folder: Seq<char>) -> Seq<char> {
    "Error opening folder "@ + folder
        + ". Either the location does not exist or has permissions issues."@
}

/// What to do with the file of `folder`: `contents` is its text, or nothing
/// where it could not be opened. The folder is named by its path ending in
/// the separator, whether it was given so or not.
pub open spec fn assess(folder: Seq<char>, contents: Option<Seq<char>>) -> LoadingView {
    match contents {
        None => LoadingView::Unreadable { message: open_error(with_separator(folder)) },
        Some(text) => if text.len() == 0 {
            LoadingView::Blank { template: TEMPLATE@, message: NOT_CONFIGURED@ }
        } else {
            LoadingView::Filled
        },
    }
}

impl Config {
    /// The path of the configuration file in a folder. The path of the
    /// folder may end in the separator or not: the file is looked for
    /// inside the folder either way.
    pub fn path(folder: &str) -> (path: String)
        ensures
            path@ == file_path(with_separator(folder@)),
    {
        let mut path = end_with_separator(folder);
        path.append(FILE_NAME);
        path
    }

    /// Says what to do with the file of `folder`: `contents` is its text, or
    /// nothing where it could not be opened.
    pub fn assess(folder: &str, contents: Option<&str>) -> (loading: Loading)
        ensures
            loading@ == assess(folder@, contents.deep_view()),
    {
        match contents {
            None => {
                let mut message = "Error opening folder ".to_owned();
                message.append(end_with_separator(folder).as_str());
                message.append(". Either the location does not exist or has permissions issues.");
                Loading::Unreadable { message }
            },
            Some(text) => {
                if text.is_empty() {
                    Loading::Blank {
                        template: TEMPLATE.to_owned(),
                        message: NOT_CONFIGURED.to_owned(),
                    }
                } else {
                    Loading::Filled
                }
            },
        }
    }
}

} // verus!
