//! The git driver: what to run, and what its outcomes mean.
//!
//! The agent drives the `git` executable. The library decides the exact
//! argument vectors, tracks the repository state, and interprets every
//! outcome; the surrounding binary spawns the subprocess and hands its
//! result back as a [`CmdOutcome`].

use vstd::prelude::*;
use vstd::string::*;

use crate::strutil::{split_spec, trim_spec, trim_spaces};

verus! {

/// Why a git operation failed.
#[derive(Debug)]
pub enum Error {
    /// The subprocess could not be started at all.
    CommandExecution(String),
    /// git ran and exited non-zero; its stderr is kept.
    CommandStatus { code: i32, message: String },
    /// git wrote output that is not UTF-8.
    OutputEncode,
}

/// How one invocation of git ended, as the binary reports it back.
#[derive(Debug)]
pub enum CmdOutcome {
    /// Exit status zero; the captured standard output.
    Success { stdout: String },
    /// Ran, but exited non-zero; the code and captured standard error.
    Failed { code: i32, stderr: String },
    /// The subprocess could not be spawned.
    SpawnError { message: String },
    /// The captured output was not UTF-8.
    EncodeError,
}

/// A clone the pipeline works in: where it came from, where it lies, and
/// what is checked out.
pub struct Repository {
    remote: String,
    dir: String,
    reference: String,
}

impl Clone for Repository {
    fn clone(&self) -> (r: Self)
        ensures
            r.remote_spec() == self.remote_spec(),
            r.dir_spec() == self.dir_spec(),
            r.ref_spec() == self.ref_spec(),
    {
        Repository {
            remote: self.remote.clone(),
            dir: self.dir.clone(),
            reference: self.reference.clone(),
        }
    }
}

/// The error a finished-but-failed or unspawnable command stands for.
pub open spec fn outcome_error_spec(o: CmdOutcome) -> Error {
    match o {
        CmdOutcome::Success { stdout } => Error::OutputEncode,
        CmdOutcome::Failed { code, stderr } => Error::CommandStatus { code, message: stderr },
        CmdOutcome::SpawnError { message } => Error::CommandExecution(message),
        CmdOutcome::EncodeError => Error::OutputEncode,
    }
}

impl Repository {
    pub closed spec fn remote_spec(&self) -> Seq<char> {
        self.remote@
    }

    pub closed spec fn dir_spec(&self) -> Seq<char> {
        self.dir@
    }

    pub closed spec fn ref_spec(&self) -> Seq<char> {
        self.reference@
    }

    /// The arguments of the clone invocation: `clone <remote> <dir>`.
    pub fn clone_command(remote: &str, dir: &str) -> (r: Vec<String>)
        ensures
            r.deep_view() =~= seq!["clone"@, remote@, dir@],
    {
        let mut v: Vec<String> = Vec::new();
        v.push("clone".to_owned());
        v.push(remote.to_owned());
        v.push(dir.to_owned());
        v
    }

    /// The repository state after `git clone <remote> <dir>` ended as
    /// `outcome` says: checked out at `HEAD` on success, the failure
    /// mapped to its error otherwise.
    pub fn clone(remote: &str, dir: &str, outcome: CmdOutcome) -> (r: Result<Self, Error>)
        ensures
            match r {
                Ok(repo) => outcome is Success && repo.remote_spec() == remote@ && repo.dir_spec()
                    == dir@ && repo.ref_spec() == "HEAD"@,
                Err(e) => !(outcome is Success) && e == outcome_error_spec(outcome),
            },
    {
        match outcome {
            CmdOutcome::Success { stdout: _ } => Ok(Self {
                remote: remote.to_owned(),
                dir: dir.to_owned(),
                reference: "HEAD".to_owned(),
            }),
            CmdOutcome::Failed { code, stderr } => Err(Error::CommandStatus {
                code,
                message: stderr,
            }),
            CmdOutcome::SpawnError { message } => Err(Error::CommandExecution(message)),
            CmdOutcome::EncodeError => Err(Error::OutputEncode),
        }
    }

    /// The arguments of the checkout invocation:
    /// `-C <dir> checkout <reference>`.
    pub fn checkout_command(&self, reference: &str) -> (r: Vec<String>)
        ensures
            r.deep_view() =~= seq!["-C"@, self.dir_spec(), "checkout"@, reference@],
    {
        let mut v: Vec<String> = Vec::new();
        v.push("-C".to_owned());
        v.push(self.dir.clone());
        v.push("checkout".to_owned());
        v.push(reference.to_owned());
        v
    }

    /// Moves the repository to `reference` when the checkout command
    /// succeeded; a failure leaves it where it stood.
    pub fn checkout(&mut self, reference: &str, outcome: CmdOutcome) -> (r: Result<(), Error>)
        ensures
            final(self).remote_spec() == old(self).remote_spec(),
            final(self).dir_spec() == old(self).dir_spec(),
            match r {
                Ok(()) => outcome is Success && final(self).ref_spec() == reference@,
                Err(e) => !(outcome is Success) && e == outcome_error_spec(outcome)
                    && final(self).ref_spec() == old(self).ref_spec(),
            },
    {
        match outcome {
            CmdOutcome::Success { stdout: _ } => {
                self.reference = reference.to_owned();
                Ok(())
            },
            CmdOutcome::Failed { code, stderr } => Err(Error::CommandStatus {
                code,
                message: stderr,
            }),
            CmdOutcome::SpawnError { message } => Err(Error::CommandExecution(message)),
            CmdOutcome::EncodeError => Err(Error::OutputEncode),
        }
    }

    /// The arguments of the tag probe:
    /// `-C <dir> describe --tags --exact-match`.
    pub fn describe_command(&self) -> (r: Vec<String>)
        ensures
            r.deep_view() =~= seq!["-C"@, self.dir_spec(), "describe"@, "--tags"@, "--exact-match"@],
    {
        let mut v: Vec<String> = Vec::new();
        v.push("-C".to_owned());
        v.push(self.dir.clone());
        v.push("describe".to_owned());
        v.push("--tags".to_owned());
        v.push("--exact-match".to_owned());
        v
    }

    /// The arguments of the branch probe:
    /// `-C <dir> branch -a --contains <reference>`.
    pub fn branch_contains_command(&self) -> (r: Vec<String>)
        ensures
            r.deep_view() =~= seq![
                "-C"@,
                self.dir_spec(),
                "branch"@,
                "-a"@,
                "--contains"@,
                self.ref_spec(),
            ],
    {
        let mut v: Vec<String> = Vec::new();
        v.push("-C".to_owned());
        v.push(self.dir.clone());
        v.push("branch".to_owned());
        v.push("-a".to_owned());
        v.push("--contains".to_owned());
        v.push(self.reference.clone());
        v
    }

    /// The human name of the checked-out reference, read from the two
    /// probes: the tag probe's output verbatim when it succeeded, else
    /// the second line of the branch probe's output — or the stored
    /// reference when there is none — trimmed.
    pub fn get_ref_name(&self, describe: CmdOutcome, branch: CmdOutcome) -> (r: Result<
        String,
        Error,
    >)
        ensures
            match describe {
                CmdOutcome::Success { stdout } => r matches Ok(name) && name@ == stdout@,
                _ => match branch {
                    CmdOutcome::Success { stdout } => r matches Ok(name) && name@ == trim_spec(
                        {
                            let lines = split_spec(stdout@, '\n');
                            if lines.len() >= 2 {
                                lines[1]
                            } else {
                                self.ref_spec()
                            }
                        },
                    ),
                    _ => r matches Err(e) && e == outcome_error_spec(branch),
                },
            },
    {
        match describe {
            CmdOutcome::Success { stdout } => Ok(stdout),
            _ => {
                match branch {
                    CmdOutcome::Success { stdout } => {
                        let lines = crate::strutil::split_on(stdout.as_str(), '\n');
                        if lines.len() >= 2 {
                            proof {
                                assert(lines.deep_view()[1] == lines@[1]@);
                            }
                            Ok(trim_spaces(lines[1].as_str()).to_owned())
                        } else {
                            Ok(trim_spaces(self.reference.as_str()).to_owned())
                        }
                    },
                    CmdOutcome::Failed { code, stderr } => Err(Error::CommandStatus {
                        code,
                        message: stderr,
                    }),
                    CmdOutcome::SpawnError { message } => Err(Error::CommandExecution(message)),
                    CmdOutcome::EncodeError => Err(Error::OutputEncode),
                }
            },
        }
    }

    /// Where the clone came from.
    pub fn get_remote(&self) -> (r: &str)
        ensures
            r@ == self.remote_spec(),
    {
        self.remote.as_str()
    }

    /// Where the clone lies on disk.
    pub fn get_dir(&self) -> (r: &str)
        ensures
            r@ == self.dir_spec(),
    {
        self.dir.as_str()
    }

    /// What is checked out.
    pub fn get_ref(&self) -> (r: &str)
        ensures
            r@ == self.ref_spec(),
    {
        self.reference.as_str()
    }
}

} // verus!
