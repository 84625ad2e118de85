//! The user's configuration and the values that a scan takes from it.

use vstd::prelude::*;
use crate::text::names;

verus! {

/// The configuration of one project; every part may be absent.
#[derive(Debug)]
pub struct Config {
    pub project: Option<Project>,
    /// Base names of directories and files to skip.
    pub ignore: Option<Vec<String>>,
    pub thresholds: Option<Thresholds>,
}

/// Size limits.
#[derive(Debug)]
pub struct Thresholds {
    /// Above this many KiB a script counts as large.
    pub large_file_kb: Option<u32>,
}

/// What kind of project is scanned.
#[derive(Debug)]
pub struct Project {
    pub router: Option<String>,
    pub target: Option<String>,
}

/// The names skipped where the configuration lists none.
pub open spec fn default_ignore() -> Seq<Seq<char>> {
    seq![".git"@, "target"@, "node_modules"@, "dist"@, "build"@]
}

/// The large-file threshold in KiB where the configuration gives none.
pub open spec fn default_large_file_kb() -> u32 {
    200
}

impl Default for Config {
    fn default() -> (c: Config)
        ensures
            c.project.is_none(),
            c.ignore.is_none(),
            c.thresholds.is_none(),
    {
        Config { project: None, ignore: None, thresholds: None }
    }
}

impl Default for Thresholds {
    fn default() -> (t: Thresholds)
        ensures
            t.large_file_kb.is_none(),
    {
        Thresholds { large_file_kb: None }
    }
}

impl Config {
    /// The ignore list in force: the configured one, else the default.
    pub open spec fn effective_ignore(&self) -> Seq<Seq<char>> {
        match self.ignore {
            Some(list) => names(list@),
            None => default_ignore(),
        }
    }

    /// The large-file threshold in force: the configured one, else the
    /// default.
    pub open spec fn effective_large_file_kb(&self) -> u32 {
        match self.thresholds {
            Some(t) => match t.large_file_kb {
                Some(kb) => kb,
                None => default_large_file_kb(),
            },
            None => default_large_file_kb(),
        }
    }

    /// Returns the ignore list in force.
    pub fn ignore_list(&self) -> (list: Vec<String>)
        ensures
            names(list@) == self.effective_ignore(),
    {
        let mut list: Vec<String> = Vec::new();
        match &self.ignore {
            Some(given) => {
                let mut k: usize = 0;
                while k < given.len()
                    invariant
                        k <= given.len(),
                        list@.len() == k,
                        forall|j: int| 0 <= j < k ==> list@[j]@ == given@[j]@,
                    decreases given.len() - k,
                {
                    list.push(given[k].clone());
                    k += 1;
                }
                assert(names(list@) =~= names(given@));
            },
            None => {
                list.push(String::from_str(".git"));
                list.push(String::from_str("target"));
                list.push(String::from_str("node_modules"));
                list.push(String::from_str("dist"));
                list.push(String::from_str("build"));
                assert(names(list@) =~= default_ignore());
            },
        }
        list
    }

    /// Returns the large-file threshold in force, in KiB.
    pub fn large_file_kb(&self) -> (kb: u32)
        ensures
            kb == self.effective_large_file_kb(),
    {
        match &self.thresholds {
            Some(t) => match t.large_file_kb {
                Some(kb) => kb,
                None => 200,
            },
            None => 200,
        }
    }
}

} // verus!
