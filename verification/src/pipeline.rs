//! The run pipeline: one post-receive event, step by step.
//!
//! A [`Pipeline`] is a state machine. The binary feeds it what happened —
//! the workspace was made, git finished, the definition file was read —
//! and the pipeline answers with the next thing to do. Every decision is
//! made and proved here: the reference must parse before anything else
//! happens, the workspace and clone failures end the run with the right
//! error, and jobs are picked in declaration order exactly when their
//! filter matches the pushed reference.
//!
//! A [`JobRun`] is the machine for a single selected job: the start
//! notifications, then the script, then the success or failure
//! notifications with the script's output or error as context.

use vstd::prelude::*;
use vstd::string::*;

use crate::definition::{ref_matches_spec, Definition, Job, JobState, Ref};
use crate::git::{CmdOutcome, Repository};
use crate::runner::{job_orders_ok, Error, NotifyOrder, Runner};

verus! {

/// Is the job selected for the pushed reference: it has no filter, or
/// its filter matches.
pub open spec fn job_selected(job: Job, rf: Ref) -> bool {
    match job.on {
        Some(filter) => ref_matches_spec(filter, rf),
        None => true,
    }
}

fn job_selected_exec(job: &Job, rf: &Ref) -> (r: bool)
    ensures
        r == job_selected(*job, *rf),
{
    match &job.on {
        Some(filter) => filter.matches(rf),
        None => true,
    }
}

/// Where one post-receive run stands.
pub enum PipelineState {
    /// Nothing has happened yet.
    Created,
    /// The reference parsed; a workspace is wanted.
    CreatingWorkspace { ref_typ: Ref },
    /// `git clone` into `dir` is under way.
    Cloning { ref_typ: Ref, dir: String },
    /// `git checkout` is under way.
    CheckingOut { ref_typ: Ref, repo: Repository },
    /// The presence of the definition file is being checked.
    CheckingDefinition { ref_typ: Ref, repo: Repository },
    /// The definition file is being read and parsed.
    LoadingDefinition { ref_typ: Ref, repo: Repository },
    /// Every job before `next` is dealt with; the scan goes on there.
    Dispatching { ref_typ: Ref, repo: Repository, def: Definition, next: usize },
    /// The job at `index` runs synchronously; the scan then goes on at
    /// `next`.
    AwaitingJob { ref_typ: Ref, repo: Repository, def: Definition, index: usize, next: usize },
    /// The run is over.
    Done { result: Result<(), Error> },
}

/// How loading and parsing the definition file went.
pub enum DefinitionOutcome {
    Parsed(Definition),
    ReadFailed(String),
    ParseFailed(String),
}

/// What the binary reports back into the pipeline.
pub enum PipelineEvent {
    /// Start working.
    Begin,
    /// The fresh workspace directory, or why there is none.
    WorkspaceCreated(Result<String, String>),
    /// How `git clone` ended.
    CloneDone(CmdOutcome),
    /// How `git checkout` ended.
    CheckoutDone(CmdOutcome),
    /// Whether the definition file exists in the workspace.
    DefinitionPresent(bool),
    /// How reading and parsing the definition file went.
    DefinitionLoaded(DefinitionOutcome),
    /// The job last ordered was dispatched: an awaited one finished, a
    /// detached one was spawned.
    JobDone,
}

/// What the binary must do next.
pub enum PipelineAction {
    /// Create a fresh workspace directory and report it.
    CreateWorkspace,
    /// Run `git` with these arguments and report how it went.
    RunGit(Vec<String>),
    /// Report whether `.minicd` exists under `dir`.
    CheckDefinition { dir: String },
    /// Read and parse `.minicd` under `dir` and report the outcome.
    LoadDefinition { dir: String },
    /// Run the job at `index` in the manifest; wait for it iff
    /// `awaited`, then report `JobDone`.
    RunJob { index: usize, awaited: bool },
    /// The run is over; `Done` holds its outcome.
    Finished,
    /// The event does not belong to the current state; nothing happened.
    Ignored,
}

/// What the job scan must deliver, going from `start`: the first
/// selected job — awaited or detached — or the end of the run, with
/// every job in between rightly skipped.
pub open spec fn dispatch_post(
    ref_typ: Ref,
    repo: Repository,
    def: Definition,
    start: int,
    new_state: PipelineState,
    action: PipelineAction,
) -> bool {
    match action {
        PipelineAction::RunJob { index, awaited } => {
            &&& start <= index < def.jobs@.len()
            &&& job_selected(def.jobs@[index as int].1, ref_typ)
            &&& forall|k: int|
                start <= k < index ==> !job_selected((#[trigger] def.jobs@[k]).1, ref_typ)
            &&& awaited == (def.jobs@[index as int].1.await_result == Some(true))
            &&& if awaited {
                &&& new_state matches PipelineState::AwaitingJob {
                    ref_typ: rt,
                    repo: rp,
                    def: d,
                    index: i2,
                    next,
                }
                &&& rt == ref_typ
                &&& rp == repo
                &&& d == def
                &&& i2 == index
                &&& next == index + 1
            } else {
                &&& new_state matches PipelineState::Dispatching {
                    ref_typ: rt,
                    repo: rp,
                    def: d,
                    next,
                }
                &&& rt == ref_typ
                &&& rp == repo
                &&& d == def
                &&& next == index + 1
            }
        },
        PipelineAction::Finished => {
            &&& forall|k: int|
                start <= k < def.jobs@.len() ==> !job_selected((#[trigger] def.jobs@[k]).1, ref_typ)
            &&& new_state matches PipelineState::Done { result }
            &&& result is Ok
        },
        _ => false,
    }
}

/// One post-receive run: the event's three tokens, and where the run
/// stands.
pub struct Pipeline {
    pub remote: String,
    pub commit: String,
    pub ref_name: String,
    pub state: PipelineState,
}

/// Scans the jobs from `start` for the next selected one.
fn dispatch(ref_typ: Ref, repo: Repository, def: Definition, start: usize) -> (r: (
    PipelineState,
    PipelineAction,
))
    ensures
        dispatch_post(ref_typ, repo, def, start as int, r.0, r.1),
{
    if start >= def.jobs.len() {
        return (PipelineState::Done { result: Ok(()) }, PipelineAction::Finished);
    }
    let mut j: usize = start;
    while j < def.jobs.len()
        invariant
            start <= j <= def.jobs@.len(),
            forall|k: int|
                start <= k < j ==> !job_selected((#[trigger] def.jobs@[k]).1, ref_typ),
        decreases def.jobs@.len() - j,
    {
        if job_selected_exec(&def.jobs[j].1, &ref_typ) {
            let awaited = match def.jobs[j].1.await_result {
                Some(true) => true,
                _ => false,
            };
            if awaited {
                return (
                    PipelineState::AwaitingJob { ref_typ, repo, def, index: j, next: j + 1 },
                    PipelineAction::RunJob { index: j, awaited: true },
                );
            } else {
                return (
                    PipelineState::Dispatching { ref_typ, repo, def, next: j + 1 },
                    PipelineAction::RunJob { index: j, awaited: false },
                );
            }
        }
        j = j + 1;
    }
    (PipelineState::Done { result: Ok(()) }, PipelineAction::Finished)
}

impl Pipeline {
    /// A run for the three tokens of one post-receive notification.
    pub fn new(remote: String, commit: String, ref_name: String) -> (r: Self)
        ensures
            r.remote == remote,
            r.commit == commit,
            r.ref_name == ref_name,
            r.state is Created,
    {
        Self { remote, commit, ref_name, state: PipelineState::Created }
    }

    /// One step of the run: what happened goes in, what to do next comes
    /// out. An event that does not belong to the current state changes
    /// nothing.
    pub fn step(self, event: PipelineEvent) -> (r: (Pipeline, PipelineAction))
        ensures
            r.0.remote == self.remote,
            r.0.commit == self.commit,
            r.0.ref_name == self.ref_name,
            match (self.state, event) {
                (PipelineState::Created, PipelineEvent::Begin) => match r.1 {
                    PipelineAction::CreateWorkspace => {
                        &&& r.0.state matches PipelineState::CreatingWorkspace { ref_typ }
                        &&& self.ref_name@ == ref_typ.display_spec()
                    },
                    PipelineAction::Finished => {
                        &&& r.0.state matches PipelineState::Done { result }
                        &&& result matches Err(e)
                        &&& e is InvalidReferenceName
                        &&& forall|rf: Ref| self.ref_name@ != #[trigger] rf.display_spec()
                    },
                    _ => false,
                },
                (
                    PipelineState::CreatingWorkspace { ref_typ },
                    PipelineEvent::WorkspaceCreated(ws),
                ) => match ws {
                    Ok(dir) => {
                        &&& r.1 matches PipelineAction::RunGit(args)
                        &&& args.deep_view() =~= seq!["clone"@, self.remote@, dir@]
                        &&& r.0.state matches PipelineState::Cloning { ref_typ: rt, dir: d }
                        &&& rt == ref_typ
                        &&& d == dir
                    },
                    Err(m) => {
                        &&& r.1 is Finished
                        &&& r.0.state matches PipelineState::Done { result }
                        &&& result matches Err(e)
                        &&& e matches Error::TempDirCreationFailed(m2)
                        &&& m2 == m
                    },
                },
                (PipelineState::Cloning { ref_typ, dir }, PipelineEvent::CloneDone(outcome)) => {
                    if outcome is Success {
                        &&& r.1 matches PipelineAction::RunGit(args)
                        &&& args.deep_view() =~= seq![
                            "-C"@,
                            dir@,
                            "checkout"@,
                            self.commit@,
                        ]
                        &&& r.0.state matches PipelineState::CheckingOut { ref_typ: rt, repo }
                        &&& rt == ref_typ
                        &&& repo.remote_spec() == self.remote@
                        &&& repo.dir_spec() == dir@
                        &&& repo.ref_spec() == "HEAD"@
                    } else {
                        &&& r.1 is Finished
                        &&& r.0.state matches PipelineState::Done { result }
                        &&& result matches Err(e)
                        &&& e == Error::Git(crate::git::outcome_error_spec(outcome))
                    }
                },
                (
                    PipelineState::CheckingOut { ref_typ, repo },
                    PipelineEvent::CheckoutDone(outcome),
                ) => {
                    if outcome is Success {
                        &&& r.1 matches PipelineAction::CheckDefinition { dir }
                        &&& dir@ == repo.dir_spec()
                        &&& r.0.state matches PipelineState::CheckingDefinition { ref_typ: rt, repo: rp }
                        &&& rt == ref_typ
                        &&& rp.remote_spec() == repo.remote_spec()
                        &&& rp.dir_spec() == repo.dir_spec()
                        &&& rp.ref_spec() == self.commit@
                    } else {
                        &&& r.1 is Finished
                        &&& r.0.state matches PipelineState::Done { result }
                        &&& result matches Err(e)
                        &&& e == Error::Git(crate::git::outcome_error_spec(outcome))
                    }
                },
                (
                    PipelineState::CheckingDefinition { ref_typ, repo },
                    PipelineEvent::DefinitionPresent(present),
                ) => {
                    if present {
                        &&& r.1 matches PipelineAction::LoadDefinition { dir }
                        &&& dir@ == repo.dir_spec()
                        &&& r.0.state matches PipelineState::LoadingDefinition { ref_typ: rt, repo: rp }
                        &&& rt == ref_typ
                        &&& rp == repo
                    } else {
                        &&& r.1 is Finished
                        &&& r.0.state matches PipelineState::Done { result }
                        &&& result matches Err(e)
                        &&& e is NoDefinitionFile
                    }
                },
                (
                    PipelineState::LoadingDefinition { ref_typ, repo },
                    PipelineEvent::DefinitionLoaded(outcome),
                ) => match outcome {
                    DefinitionOutcome::Parsed(def) => dispatch_post(
                        ref_typ,
                        repo,
                        def,
                        0,
                        r.0.state,
                        r.1,
                    ),
                    DefinitionOutcome::ReadFailed(m) => {
                        &&& r.1 is Finished
                        &&& r.0.state matches PipelineState::Done { result }
                        &&& result matches Err(e)
                        &&& e matches Error::FailedReadingDefinitionFile(m2)
                        &&& m2 == m
                    },
                    DefinitionOutcome::ParseFailed(m) => {
                        &&& r.1 is Finished
                        &&& r.0.state matches PipelineState::Done { result }
                        &&& result matches Err(e)
                        &&& e matches Error::FailedDeserializingDefinitionFile(m2)
                        &&& m2 == m
                    },
                },
                (
                    PipelineState::Dispatching { ref_typ, repo, def, next },
                    PipelineEvent::JobDone,
                ) => dispatch_post(ref_typ, repo, def, next as int, r.0.state, r.1),
                (
                    PipelineState::AwaitingJob { ref_typ, repo, def, index, next },
                    PipelineEvent::JobDone,
                ) => dispatch_post(ref_typ, repo, def, next as int, r.0.state, r.1),
                _ => r.1 is Ignored && r.0.state == self.state,
            },
    {
        let Pipeline { remote, commit, ref_name, state } = self;
        let (state, action): (PipelineState, PipelineAction) = match (state, event) {
            (PipelineState::Created, PipelineEvent::Begin) => {
                match Ref::parse(ref_name.as_str()) {
                    Ok(ref_typ) => (
                        PipelineState::CreatingWorkspace { ref_typ },
                        PipelineAction::CreateWorkspace,
                    ),
                    Err(_) => (
                        PipelineState::Done { result: Err(Error::InvalidReferenceName) },
                        PipelineAction::Finished,
                    ),
                }
            },
            (PipelineState::CreatingWorkspace { ref_typ }, PipelineEvent::WorkspaceCreated(ws)) => {
                match ws {
                    Ok(dir) => {
                        let args = Repository::clone_command(remote.as_str(), dir.as_str());
                        (
                            PipelineState::Cloning { ref_typ, dir },
                            PipelineAction::RunGit(args),
                        )
                    },
                    Err(m) => (
                        PipelineState::Done { result: Err(Error::TempDirCreationFailed(m)) },
                        PipelineAction::Finished,
                    ),
                }
            },
            (PipelineState::Cloning { ref_typ, dir }, PipelineEvent::CloneDone(outcome)) => {
                match Repository::clone(remote.as_str(), dir.as_str(), outcome) {
                    Ok(repo) => {
                        let args = repo.checkout_command(commit.as_str());
                        (
                            PipelineState::CheckingOut { ref_typ, repo },
                            PipelineAction::RunGit(args),
                        )
                    },
                    Err(e) => (
                        PipelineState::Done { result: Err(Error::Git(e)) },
                        PipelineAction::Finished,
                    ),
                }
            },
            (
                PipelineState::CheckingOut { ref_typ, repo: mut repo },
                PipelineEvent::CheckoutDone(outcome),
            ) => {
                match repo.checkout(commit.as_str(), outcome) {
                    Ok(()) => {
                        let dir = repo.get_dir().to_owned();
                        (
                            PipelineState::CheckingDefinition { ref_typ, repo },
                            PipelineAction::CheckDefinition { dir },
                        )
                    },
                    Err(e) => (
                        PipelineState::Done { result: Err(Error::Git(e)) },
                        PipelineAction::Finished,
                    ),
                }
            },
            (
                PipelineState::CheckingDefinition { ref_typ, repo },
                PipelineEvent::DefinitionPresent(present),
            ) => {
                if present {
                    let dir = repo.get_dir().to_owned();
                    (
                        PipelineState::LoadingDefinition { ref_typ, repo },
                        PipelineAction::LoadDefinition { dir },
                    )
                } else {
                    (
                        PipelineState::Done { result: Err(Error::NoDefinitionFile) },
                        PipelineAction::Finished,
                    )
                }
            },
            (
                PipelineState::LoadingDefinition { ref_typ, repo },
                PipelineEvent::DefinitionLoaded(outcome),
            ) => {
                match outcome {
                    DefinitionOutcome::Parsed(def) => dispatch(ref_typ, repo, def, 0),
                    DefinitionOutcome::ReadFailed(m) => (
                        PipelineState::Done {
                            result: Err(Error::FailedReadingDefinitionFile(m)),
                        },
                        PipelineAction::Finished,
                    ),
                    DefinitionOutcome::ParseFailed(m) => (
                        PipelineState::Done {
                            result: Err(Error::FailedDeserializingDefinitionFile(m)),
                        },
                        PipelineAction::Finished,
                    ),
                }
            },
            (PipelineState::Dispatching { ref_typ, repo, def, next }, PipelineEvent::JobDone) => {
                dispatch(ref_typ, repo, def, next)
            },
            (
                PipelineState::AwaitingJob { ref_typ, repo, def, index: _, next },
                PipelineEvent::JobDone,
            ) => dispatch(ref_typ, repo, def, next),
            (st, _) => (st, PipelineAction::Ignored),
        };
        (Pipeline { remote, commit, ref_name, state }, action)
    }
}

/// Where one job's run stands.
pub enum JobPhase {
    /// Selected; nothing fired yet.
    Created,
    /// The start notifications are out; the script may run.
    Started,
    /// The script ran and the outcome notifications are out.
    Done,
}

/// The run of one selected job: the job, what the notifications speak
/// of, and the workspace its script runs in.
pub struct JobRun {
    pub job: Job,
    pub name: String,
    pub ref_typ: Ref,
    pub repo: Repository,
    pub workspace: String,
    pub phase: JobPhase,
}

impl JobRun {
    pub fn new(job: Job, name: String, ref_typ: Ref, repo: Repository, workspace: String) -> (r:
        Self)
        ensures
            r.job == job,
            r.name == name,
            r.ref_typ == ref_typ,
            r.repo == repo,
            r.workspace == workspace,
            r.phase is Created,
    {
        Self { job, name, ref_typ, repo, workspace, phase: JobPhase::Created }
    }

    /// The notifications owed before the script starts. Fired exactly
    /// once: the job is then running.
    pub fn begin(&mut self, runner: &Runner) -> (orders: Vec<NotifyOrder>)
        requires
            old(self).phase is Created,
        ensures
            final(self).phase is Started,
            final(self).job == old(self).job,
            final(self).name == old(self).name,
            final(self).ref_typ == old(self).ref_typ,
            final(self).repo == old(self).repo,
            final(self).workspace == old(self).workspace,
            job_orders_ok(
                runner.secrets@,
                runner.mailer_present,
                old(self).job,
                JobState::Start,
                old(self).name@,
                old(self).ref_typ,
                old(self).repo.ref_spec(),
                Seq::<char>::empty(),
                orders@,
            ),
    {
        let orders = runner.state_orders(
            &self.job,
            JobState::Start,
            self.name.as_str(),
            &self.repo,
            &self.ref_typ,
            None,
        );
        self.phase = JobPhase::Started;
        orders
    }

    /// Runs the script and hands back the outcome notifications: the
    /// success orders with the script's output as context, or the
    /// failure orders with the error's words. Reached exactly once per
    /// started job.
    pub fn execute(&mut self, runner: &Runner) -> (orders: Vec<NotifyOrder>)
        requires
            old(self).phase is Started,
        ensures
            final(self).phase is Done,
            final(self).job == old(self).job,
            final(self).name == old(self).name,
            final(self).ref_typ == old(self).ref_typ,
            final(self).repo == old(self).repo,
            final(self).workspace == old(self).workspace,
            exists|ctx: Seq<char>|
                {
                    ||| job_orders_ok(
                        runner.secrets@,
                        runner.mailer_present,
                        old(self).job,
                        JobState::Success,
                        old(self).name@,
                        old(self).ref_typ,
                        old(self).repo.ref_spec(),
                        ctx,
                        orders@,
                    )
                    ||| job_orders_ok(
                        runner.secrets@,
                        runner.mailer_present,
                        old(self).job,
                        JobState::Failure,
                        old(self).name@,
                        old(self).ref_typ,
                        old(self).repo.ref_spec(),
                        ctx,
                        orders@,
                    )
                },
    {
        let orders = match runner.run_script(&self.job, self.workspace.as_str()) {
            Ok(std_out) => {
                runner.state_orders(
                    &self.job,
                    JobState::Success,
                    self.name.as_str(),
                    &self.repo,
                    &self.ref_typ,
                    Some(std_out.as_str()),
                )
            },
            Err(err) => {
                let msg = err.message();
                let o = runner.state_orders(
                    &self.job,
                    JobState::Failure,
                    self.name.as_str(),
                    &self.repo,
                    &self.ref_typ,
                    Some(msg.as_str()),
                );
                o
            },
        };
        self.phase = JobPhase::Done;
        orders
    }
}

} // verus!
