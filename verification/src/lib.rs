//! A resume data storage and generation tool.
//!
//! Skills, education, jobs, projects and the other details of a resume are
//! created and changed in memory first, under temporary keys. Every change
//! is kept in a log that can be replayed, and the keys of the database
//! arrive only once the data has been written out.
use vstd::prelude::*;

pub mod changelist;
pub mod handler;
pub mod model;
pub mod router;
pub mod state;
pub mod store;
pub mod text;
pub mod ttuple;

verus! {

/// How much the application says while it works.
#[derive(Clone, Copy, Debug, PartialEq, Eq, Structural)]
pub enum Verbosity {
    Debug,
    Info,
    Warn,
    Error,
}

/// What the application needs to know before it starts.
#[derive(Debug)]
pub struct AppConfig {
    /// Sqlite connection string, format `sqlite:<filepath>`
    dburl: String,
    /// Adjust output verbosity, defaults to only output errors
    verbose: Verbosity,
}

impl AppConfig {
    /// The connection string of the configuration.
    pub closed spec fn spec_dburl(&self) -> Seq<char> {
        self.dburl@
    }

    /// The verbosity of the configuration.
    pub closed spec fn spec_verbose(&self) -> Verbosity {
        self.verbose
    }

    /// The configuration that follows from what was given on the command
    /// line and from what the variable `DATABASE_URL` holds.
    ///
    /// The connection string of the command line goes before that of the
    /// variable; without either there is no configuration. Where no
    /// verbosity was asked for, only errors are put out.
    pub fn new(dburl: Option<String>, env_dburl: Option<String>, verbose: Option<Verbosity>) -> (config:
        Option<Self>)
        ensures
            config is None <==> dburl is None && env_dburl is None,
            config matches Some(c) ==> {
                &&& dburl matches Some(url) ==> c.spec_dburl() == url@
                &&& dburl is None ==> c.spec_dburl() == env_dburl->Some_0@
                &&& verbose matches Some(v) ==> c.spec_verbose() == v
                &&& verbose is None ==> c.spec_verbose() == Verbosity::Error
            },
    {
        let dburl = match dburl {
            Some(s) => s,
            None => match env_dburl {
                Some(s) => s,
                None => {
                    return None;
                },
            },
        };
        let verbose = match verbose {
            Some(v) => v,
            None => Verbosity::Error,
        };
        Some(Self { dburl, verbose })
    }

    /// The connection string.
    pub fn dburl(&self) -> (url: &String)
        ensures
            url@ == self.spec_dburl(),
    {
        &self.dburl
    }

    /// The verbosity.
    #[verifier::when_used_as_spec(spec_verbose)]
    pub fn verbose(&self) -> (v: Verbosity)
        ensures
            v == self.spec_verbose(),
    {
        self.verbose
    }
}

} // verus!
