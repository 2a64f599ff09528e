//! A backup, spilled to a file beside the database and then streamed: where it
//! spills, under what name, and what is said where it cannot.

use vstd::prelude::*;
use vstd::string::*;

use crate::text::{decimal, push_decimal};

verus! {

/// Where a backup spills: the directory holding the database file, and the
/// current one where the file is named without a directory.
pub fn spill_dir(parent: Option<&str>) -> (dir: String)
    ensures
        dir@ == (match parent {
            Some(dir) => if dir@.len() > 0 {
                dir@
            } else {
                "."@
            },
            None => "."@,
        }),
{
    match parent {
        Some(dir) => if dir.unicode_len() > 0 {
            dir.to_owned()
        } else {
            ".".to_owned()
        },
        None => ".".to_owned(),
    }
}

/// The name a spill file has for the instant before it is unlinked: the
/// process's own, and the next of its numbers.
pub fn spill_name(process: u32, n: u64) -> (name: String)
    ensures
        name@ == ".kimmy-backup-"@ + decimal(process as nat) + "-"@ + decimal(n as nat)
            + ".spill"@,
{
    let mut name = ".kimmy-backup-".to_owned();
    push_decimal(&mut name, process as u64);
    name.append("-");
    push_decimal(&mut name, n);
    name.append(".spill");
    name
}

/// What went wrong in spilling a backup, by the step that failed.
#[derive(Debug)]
pub enum SpillStep {
    Creating(String),
    /// The walk of the store failed; its error says how.
    Walking(String),
    Writing(String),
    Rewinding(String),
}

impl SpillStep {
    /// The step's error in words.
    pub open spec fn words(self) -> Seq<char> {
        match self {
            SpillStep::Creating(e) => "creating the file a backup spills into: "@ + e@,
            SpillStep::Walking(e) => e@,
            SpillStep::Writing(e) => "writing a backup: "@ + e@,
            SpillStep::Rewinding(e) => "rewinding a backup: "@ + e@,
        }
    }

    /// The whole message, which names the directory: the likeliest cause is
    /// that directory's disk, and an operator needs to know which one to look
    /// at.
    pub fn message(&self, dir: &str) -> (text: String)
        ensures
            text@ == "spilling a backup into "@ + dir@ + ": "@ + self.words(),
    {
        let (what, error) = match self {
            SpillStep::Creating(e) => ("creating the file a backup spills into: ", e),
            SpillStep::Walking(e) => ("", e),
            SpillStep::Writing(e) => ("writing a backup: ", e),
            SpillStep::Rewinding(e) => ("rewinding a backup: ", e),
        };
        proof {
            reveal_strlit("");
        }
        let mut words = what.to_owned();
        words.append(error.as_str());
        assert(words@ =~= self.words());
        let mut text = "spilling a backup into ".to_owned();
        text.append(dir);
        text.append(": ");
        text.append(words.as_str());
        text
    }
}

} // verus!
