//! Turning a selected job into work: the script invocation and the
//! notification orders.
//!
//! The library decides everything about a job run — which shell runs the
//! script, in which directory, under which environment, and which
//! notifications are owed in which state, with secrets interpolated. The
//! surrounding binary only transmits: it spawns the script runner through
//! one trusted call here, and sends the mails and HTTP requests the
//! orders describe.

use vstd::prelude::*;
use vstd::string::*;

use crate::definition::{Job, JobState, Notify, NotifyTarget, Ref, ValueOrList};
use crate::git::Repository;
use crate::secrets::{env_key_spec, flat_spec, replace_spec, SecretManager, Value};
use crate::strutil::{dec_int, i32_to_string};

verus! {

/// Why a run, or one step of it, failed.
#[derive(Debug)]
pub enum Error {
    /// The workspace directory could not be created.
    TempDirCreationFailed(String),
    /// A git operation failed.
    Git(crate::git::Error),
    /// The cloned tree holds no `.minicd` file.
    NoDefinitionFile,
    /// The definition file could not be read.
    FailedReadingDefinitionFile(String),
    /// The definition file could not be understood.
    FailedDeserializingDefinitionFile(String),
    /// The script runner itself failed.
    Script(String),
    /// The script ran and exited non-zero.
    ScriptNonZeroExitCode { exit_code: i32, std_err: String },
    /// A webhook target names a method HTTP does not know.
    WebhookInvalidMethod(String),
    /// A webhook target carries a header no request can hold.
    WebhookInvalidHeader { name: String, value: String },
    /// A webhook request went out and failed.
    WebhookFailed(String),
    /// A mail could not be sent.
    MailFailed(String),
    /// The pushed ref path is not a branch or tag path.
    InvalidReferenceName,
}

impl crate::git::Error {
    /// The words this failure prints as.
    pub open spec fn message_spec(&self) -> Seq<char> {
        match self {
            crate::git::Error::CommandExecution(m) => "Command execution failed: "@ + m@,
            crate::git::Error::CommandStatus { code, message } => "Command failed ("@ + dec_int(
                *code as int,
            ) + "): "@ + message@,
            crate::git::Error::OutputEncode => "failed encoding output to UTF8"@,
        }
    }

    pub fn message(&self) -> (r: String)
        ensures
            r@ == self.message_spec(),
    {
        let mut s = String::new();
        match self {
            crate::git::Error::CommandExecution(m) => {
                s.append("Command execution failed: ");
                s.append(m.as_str());
            },
            crate::git::Error::CommandStatus { code, message } => {
                s.append("Command failed (");
                s.append(i32_to_string(*code).as_str());
                s.append("): ");
                s.append(message.as_str());
            },
            crate::git::Error::OutputEncode => {
                s.append("failed encoding output to UTF8");
            },
        }
        proof {
            assert(s@ =~= self.message_spec());
        }
        s
    }
}

impl Error {
    /// The words this failure prints as, as the HTTP answer and the
    /// failure notifications carry them.
    pub open spec fn message_spec(&self) -> Seq<char> {
        match self {
            Error::TempDirCreationFailed(m) => "failed creating temp directory: "@ + m@,
            Error::Git(e) => "git operation failed: "@ + e.message_spec(),
            Error::NoDefinitionFile => "no definition file found"@,
            Error::FailedReadingDefinitionFile(m) => "failed reading definition file: "@ + m@,
            Error::FailedDeserializingDefinitionFile(m) => "failed deserializing definition file: "@
                + m@,
            Error::Script(m) => "script execution failed: "@ + m@,
            Error::ScriptNonZeroExitCode { exit_code, std_err } => {
                "script failed with non-zero exit code "@ + dec_int(*exit_code as int) + ": "@
                    + std_err@
            },
            Error::WebhookInvalidMethod(m) => "notification webhook invalid method: "@ + m@,
            Error::WebhookInvalidHeader { name, value } => "notification webhook invalid header: "@
                + name@ + ": "@ + value@,
            Error::WebhookFailed(m) => "notification webhook request failed: "@ + m@,
            Error::MailFailed(m) => "notification mail send failed: "@ + m@,
            Error::InvalidReferenceName => "invalid reference format"@,
        }
    }

    pub fn message(&self) -> (r: String)
        ensures
            r@ == self.message_spec(),
    {
        let mut s = String::new();
        match self {
            Error::TempDirCreationFailed(m) => {
                s.append("failed creating temp directory: ");
                s.append(m.as_str());
            },
            Error::Git(e) => {
                s.append("git operation failed: ");
                s.append(e.message().as_str());
            },
            Error::NoDefinitionFile => {
                s.append("no definition file found");
            },
            Error::FailedReadingDefinitionFile(m) => {
                s.append("failed reading definition file: ");
                s.append(m.as_str());
            },
            Error::FailedDeserializingDefinitionFile(m) => {
                s.append("failed deserializing definition file: ");
                s.append(m.as_str());
            },
            Error::Script(m) => {
                s.append("script execution failed: ");
                s.append(m.as_str());
            },
            Error::ScriptNonZeroExitCode { exit_code, std_err } => {
                s.append("script failed with non-zero exit code ");
                s.append(i32_to_string(*exit_code).as_str());
                s.append(": ");
                s.append(std_err.as_str());
            },
            Error::WebhookInvalidMethod(m) => {
                s.append("notification webhook invalid method: ");
                s.append(m.as_str());
            },
            Error::WebhookInvalidHeader { name, value } => {
                s.append("notification webhook invalid header: ");
                s.append(name.as_str());
                s.append(": ");
                s.append(value.as_str());
            },
            Error::WebhookFailed(m) => {
                s.append("notification webhook request failed: ");
                s.append(m.as_str());
            },
            Error::MailFailed(m) => {
                s.append("notification mail send failed: ");
                s.append(m.as_str());
            },
            Error::InvalidReferenceName => {
                s.append("invalid reference format");
            },
        }
        proof {
            assert(s@ =~= self.message_spec());
        }
        s
    }
}

/// Is `s` a method name HTTP accepts?
pub uninterp spec fn valid_method_name(s: Seq<char>) -> bool;

/// Relies on http::Method::from_bytes: whether a string is a valid
/// method token depends on the string alone, and `GET` is one.
#[verifier::external_body]
fn is_valid_method(s: &str) -> (b: bool)
    ensures
        b == valid_method_name(s@),
        s@ =~= "GET"@ ==> b,
{
    http::Method::from_bytes(s.as_bytes()).is_ok()
}

/// Is `s` a header name HTTP accepts?
pub uninterp spec fn valid_header_name(s: Seq<char>) -> bool;

/// Relies on http::HeaderName::from_bytes: whether a string is a valid
/// header name depends on the string alone.
#[verifier::external_body]
fn is_valid_header_name(s: &str) -> (b: bool)
    ensures
        b == valid_header_name(s@),
{
    http::HeaderName::from_bytes(s.as_bytes()).is_ok()
}

/// Is `s` a header value HTTP accepts?
pub uninterp spec fn valid_header_value(s: Seq<char>) -> bool;

/// Relies on http::HeaderValue::from_str: whether a string is a valid
/// header value depends on the string alone.
#[verifier::external_body]
fn is_valid_header_value(s: &str) -> (b: bool)
    ensures
        b == valid_header_value(s@),
{
    http::HeaderValue::from_str(s).is_ok()
}

/// One transmission the pipeline orders for a notification target, with
/// secrets already interpolated. The binary carries orders out in the
/// order given and only logs what fails.
#[derive(Debug)]
pub enum NotifyOrder {
    /// Send this mail.
    Email { address: String, subject: String, body: String },
    /// Issue this HTTP request.
    Webhook { url: String, method: String, headers: Vec<(String, String)> },
    /// An email target stood in the manifest, but no mailer is
    /// configured: the binary logs a warning.
    MailerMissing,
    /// A target that cannot be sent at all: the binary logs the error.
    Invalid(Error),
}

/// The position of the first header a request cannot hold, values taken
/// after interpolation.
pub open spec fn first_bad_header(store: Value, hs: Seq<(String, String)>, i: int) -> Option<int>
    decreases hs.len() - i,
{
    if i < 0 || i >= hs.len() {
        None
    } else if !valid_header_name(hs[i].0@) || !valid_header_value(
        replace_spec(store, hs[i].1@),
    ) {
        Some(i)
    } else {
        first_bad_header(store, hs, i + 1)
    }
}

/// What `context` reads as in a message body.
pub open spec fn context_view(context: Option<&str>) -> Seq<char> {
    match context {
        Some(c) => c@,
        None => Seq::<char>::empty(),
    }
}

/// The order owed for one notification target of a job in `state`:
/// a mail with the interpolated address and the state's subject and
/// body, or the interpolated HTTP request, or the reason neither can be
/// sent.
pub open spec fn order_for_target(
    store: Value,
    mailer_present: bool,
    t: NotifyTarget,
    state: JobState,
    name: Seq<char>,
    ref_disp: Seq<char>,
    repo_ref: Seq<char>,
    ctx: Seq<char>,
    o: NotifyOrder,
) -> bool {
    match t {
        NotifyTarget::EMail { address } => {
            if mailer_present {
                &&& o matches NotifyOrder::Email { address: a, subject: s, body: b }
                &&& a@ == replace_spec(store, address@)
                &&& s@ == state.subject_spec(name, ref_disp)
                &&& b@ == state.body_spec(name, ref_disp, repo_ref, ctx)
            } else {
                o is MailerMissing
            }
        },
        NotifyTarget::WebHook { url, method, headers } => {
            let m = match method {
                Some(ms) => ms@,
                None => "GET"@,
            };
            let hs = match headers {
                Some(h) => h@,
                None => Seq::<(String, String)>::empty(),
            };
            if !valid_method_name(m) {
                &&& o matches NotifyOrder::Invalid(e)
                &&& e matches Error::WebhookInvalidMethod(mm)
                &&& mm@ == m
            } else {
                match first_bad_header(store, hs, 0) {
                    Some(k) => {
                        &&& o matches NotifyOrder::Invalid(e)
                        &&& e matches Error::WebhookInvalidHeader { name: n, value: v }
                        &&& n@ == hs[k].0@
                        &&& v@ == replace_spec(store, hs[k].1@)
                    },
                    None => {
                        &&& o matches NotifyOrder::Webhook { url: u, method: mm, headers: hh }
                        &&& u@ == replace_spec(store, url@)
                        &&& mm@ == m
                        &&& hh@.len() == hs.len()
                        &&& forall|j: int|
                            0 <= j < hs.len() ==> (#[trigger] hh@[j]).0@ == hs[j].0@
                                && hh@[j].1@ == replace_spec(store, hs[j].1@)
                    },
                }
            }
        },
    }
}

/// Every target of the given notify entries, in declaration order.
pub open spec fn all_targets_from(ns: Seq<&Notify>) -> Seq<NotifyTarget>
    decreases ns.len(),
{
    if ns.len() == 0 {
        Seq::empty()
    } else {
        ns[0].to@ + all_targets_from(ns.drop_first())
    }
}

/// The same, over owned entries.
pub open spec fn all_targets(ns: Seq<Notify>) -> Seq<NotifyTarget>
    decreases ns.len(),
{
    if ns.len() == 0 {
        Seq::empty()
    } else {
        ns[0].to@ + all_targets(ns.drop_first())
    }
}

proof fn lemma_all_targets_deref(ns: Seq<&Notify>, vs: Seq<Notify>)
    requires
        ns.len() == vs.len(),
        forall|k: int| 0 <= k < ns.len() ==> *(#[trigger] ns[k]) == vs[k],
    ensures
        all_targets_from(ns) == all_targets(vs),
    decreases ns.len(),
{
    if ns.len() > 0 {
        assert(forall|k: int|
            0 <= k < ns.drop_first().len() ==> *(#[trigger] ns.drop_first()[k])
                == vs.drop_first()[k]);
        lemma_all_targets_deref(ns.drop_first(), vs.drop_first());
    }
}

/// The orders a job in `state` is owed, as one statement: none when the
/// job declares no notifies, else exactly one order per target of the
/// entries whose events cover the state, each as `order_for_target`
/// demands.
pub open spec fn job_orders_ok(
    store: Value,
    mailer_present: bool,
    job: Job,
    state: JobState,
    name: Seq<char>,
    ref_typ: Ref,
    repo_ref: Seq<char>,
    ctx: Seq<char>,
    orders: Seq<NotifyOrder>,
) -> bool {
    match job.get_notify_spec(state) {
        None => orders.len() == 0,
        Some(sel) => {
            &&& orders.len() == all_targets(sel).len()
            &&& forall|i: int|
                0 <= i < orders.len() ==> order_for_target(
                    store,
                    mailer_present,
                    all_targets(sel)[i],
                    state,
                    name,
                    ref_typ.display_spec(),
                    repo_ref,
                    ctx,
                    #[trigger] orders[i],
                )
        },
    }
}

proof fn lemma_all_targets_concat(a: Seq<&Notify>, b: Seq<&Notify>)
    ensures
        all_targets_from(a + b) == all_targets_from(a) + all_targets_from(b),
    decreases a.len(),
{
    if a.len() == 0 {
        assert(a + b =~= b);
        assert(all_targets_from(a) + all_targets_from(b) =~= all_targets_from(b));
    } else {
        assert((a + b)[0] == a[0]);
        assert((a + b).drop_first() =~= a.drop_first() + b);
        lemma_all_targets_concat(a.drop_first(), b);
        assert(a[0].to@ + (all_targets_from(a.drop_first()) + all_targets_from(b)) =~= (a[0].to@
            + all_targets_from(a.drop_first())) + all_targets_from(b));
    }
}

proof fn lemma_all_targets_take(ns: Seq<&Notify>, i: int)
    requires
        0 <= i < ns.len(),
    ensures
        all_targets_from(ns.subrange(0, i + 1)) == all_targets_from(ns.subrange(0, i))
            + ns[i].to@,
    decreases ns.len(),
{
    let one = seq![ns[i]];
    assert(ns.subrange(0, i + 1) =~= ns.subrange(0, i) + one);
    lemma_all_targets_concat(ns.subrange(0, i), one);
    assert(one.drop_first() =~= Seq::<&Notify>::empty());
    assert(all_targets_from(one.drop_first()) =~= Seq::<NotifyTarget>::empty());
    assert(one[0] == ns[i]);
    assert(all_targets_from(one) =~= ns[i].to@);
}

/// The run pipeline's shared pieces: the secret store, and whether a
/// mailer was configured.
pub struct Runner {
    pub secrets: SecretManager,
    pub mailer_present: bool,
}

/// Everything the script runner is told.
pub struct ScriptInvocation {
    pub script: String,
    pub working_directory: String,
    pub env_vars: Vec<(String, String)>,
    pub runner: Option<String>,
    pub runner_args: Option<Vec<String>>,
}

/// Relies on run_script::run: it runs the script under the given runner,
/// working directory and environment, and reports the exit code with the
/// captured output, or why it could not run. What comes back depends on
/// the machine, so nothing is promised of it.
#[verifier::external_body]
fn run_script_process(inv: &ScriptInvocation) -> (r: Result<(i32, String, String), String>) {
    let mut options = run_script::ScriptOptions::new();
    options.working_directory = Some(std::path::PathBuf::from(&inv.working_directory));
    options.env_vars = Some(inv.env_vars.iter().cloned().collect());
    options.runner = inv.runner.clone();
    options.runner_args = inv.runner_args.clone();
    match run_script::run(&inv.script, &vec![], &options) {
        Ok(out) => Ok(out),
        Err(e) => Err(e.to_string()),
    }
}

/// The result a finished script stands for: its stdout on exit code
/// zero, the non-zero exit with its stderr otherwise.
pub fn script_outcome(code: i32, std_out: String, std_err: String) -> (r: Result<String, Error>)
    ensures
        match r {
            Ok(s) => code == 0 && s@ == std_out@,
            Err(e) => {
                &&& code != 0
                &&& e matches Error::ScriptNonZeroExitCode { exit_code, std_err: se }
                &&& exit_code == code
                &&& se@ == std_err@
            },
        },
{
    if code != 0 {
        Err(Error::ScriptNonZeroExitCode { exit_code: code, std_err })
    } else {
        Ok(std_out)
    }
}

impl Runner {
    pub fn new(secrets: SecretManager, mailer_present: bool) -> (r: Self)
        ensures
            r.secrets@ == secrets@,
            r.mailer_present == mailer_present,
    {
        Self { secrets, mailer_present }
    }

    /// What the script runner will be told for `job` in the workspace
    /// `dir`: the job's script, the flattened secrets as `SECRETS_*`
    /// environment variables, and the shell override resolved — a single
    /// string is the runner, a list is the runner and its arguments.
    pub fn script_invocation(&self, job: &Job, dir: &str) -> (inv: ScriptInvocation)
        ensures
            inv.script@ == job.run@,
            inv.working_directory@ == dir@,
            inv.env_vars@.len() == flat_spec(self.secrets@, Seq::<char>::empty()).len(),
            forall|k: int|
                0 <= k < inv.env_vars@.len() ==> {
                    let fs = flat_spec(self.secrets@, Seq::<char>::empty());
                    (#[trigger] inv.env_vars@[k]).0@ == env_key_spec(fs[k].0) && inv.env_vars@[k].1@
                        == fs[k].1
                },
            match job.shell {
                None => inv.runner is None && inv.runner_args is None,
                Some(ValueOrList::Value(v)) => inv.runner matches Some(rn) && rn@ == v@
                    && inv.runner_args is None,
                Some(ValueOrList::List(l)) => {
                    &&& if l@.len() == 0 {
                        inv.runner is None
                    } else {
                        inv.runner matches Some(rn) && rn@ == l@[0]@
                    }
                    &&& if l@.len() > 1 {
                        inv.runner_args matches Some(args) && args@.len() == l@.len() - 1 && forall|
                            k: int,
                        | 0 <= k < args@.len() ==> (#[trigger] args@[k])@ == l@[k + 1]@
                    } else {
                        inv.runner_args is None
                    }
                },
            },
    {
        let flat = self.secrets.to_flat_map();
        let ghost fs = flat_spec(self.secrets@, Seq::<char>::empty());
        let mut env_vars: Vec<(String, String)> = Vec::new();
        let mut k: usize = 0;
        while k < flat.len()
            invariant
                fs == flat_spec(self.secrets@, Seq::<char>::empty()),
                flat@.len() == fs.len(),
                forall|j: int|
                    0 <= j < flat@.len() ==> (#[trigger] flat@[j]).0@ == fs[j].0 && flat@[j].1@
                        == fs[j].1,
                0 <= k <= flat@.len(),
                env_vars@.len() == k,
                forall|j: int|
                    0 <= j < k ==> (#[trigger] env_vars@[j]).0@ == env_key_spec(fs[j].0)
                        && env_vars@[j].1@ == fs[j].1,
            decreases flat@.len() - k,
        {
            let key = crate::secrets::to_env_key(flat[k].0.as_str());
            env_vars.push((key, flat[k].1.clone()));
            k = k + 1;
        }
        let mut runner: Option<String> = None;
        let mut runner_args: Option<Vec<String>> = None;
        match &job.shell {
            None => {},
            Some(ValueOrList::Value(v)) => {
                runner = Some(v.clone());
            },
            Some(ValueOrList::List(l)) => {
                if l.len() > 0 {
                    runner = Some(l[0].clone());
                }
                if l.len() > 1 {
                    let mut args: Vec<String> = Vec::new();
                    let mut j: usize = 1;
                    while j < l.len()
                        invariant
                            1 <= j <= l@.len(),
                            args@.len() == j - 1,
                            forall|m: int|
                                0 <= m < args@.len() ==> (#[trigger] args@[m])@ == l@[m + 1]@,
                        decreases l@.len() - j,
                    {
                        args.push(l[j].clone());
                        j = j + 1;
                    }
                    runner_args = Some(args);
                }
            },
        }
        ScriptInvocation {
            script: job.run.clone(),
            working_directory: dir.to_owned(),
            env_vars,
            runner,
            runner_args,
        }
    }

    /// Runs the job's script in the workspace and reads its exit: either
    /// the runner could not run at all, or the script finished and a
    /// non-zero exit is the job's failure.
    pub fn run_script(&self, job: &Job, dir: &str) -> (r: Result<String, Error>)
        ensures
            match r {
                Ok(_) => true,
                Err(e) => e is Script || (e matches Error::ScriptNonZeroExitCode {
                    exit_code,
                    ..
                } && exit_code != 0),
            },
    {
        let inv = self.script_invocation(job, dir);
        match run_script_process(&inv) {
            Ok((code, std_out, std_err)) => script_outcome(code, std_out, std_err),
            Err(e) => Err(Error::Script(e)),
        }
    }

    /// The order owed for one target.
    #[verifier::loop_isolation(false)]
    fn target_order(
        &self,
        target: &NotifyTarget,
        state: JobState,
        name: &str,
        ref_typ: &Ref,
        repo_ref: &str,
        context: Option<&str>,
    ) -> (o: NotifyOrder)
        ensures
            order_for_target(
                self.secrets@,
                self.mailer_present,
                *target,
                state,
                name@,
                ref_typ.display_spec(),
                repo_ref@,
                context_view(context),
                o,
            ),
    {
        match target {
            NotifyTarget::EMail { address } => {
                if self.mailer_present {
                    let address = self.secrets.replace(address.as_str());
                    let subject = state.get_subject(name, ref_typ);
                    let body = state.get_body(name, ref_typ, repo_ref, context);
                    NotifyOrder::Email { address, subject, body }
                } else {
                    NotifyOrder::MailerMissing
                }
            },
            NotifyTarget::WebHook { url, method, headers } => {
                let m: String = match method {
                    Some(ms) => ms.clone(),
                    None => "GET".to_owned(),
                };
                if !is_valid_method(m.as_str()) {
                    return NotifyOrder::Invalid(Error::WebhookInvalidMethod(m));
                }
                let u = self.secrets.replace(url.as_str());
                match headers {
                    None => NotifyOrder::Webhook { url: u, method: m, headers: Vec::new() },
                    Some(hs) => {
                        let mut out: Vec<(String, String)> = Vec::new();
                        let mut k: usize = 0;
                        while k < hs.len()
                            invariant
                                0 <= k <= hs@.len(),
                                first_bad_header(self.secrets@, hs@, 0) == first_bad_header(
                                    self.secrets@,
                                    hs@,
                                    k as int,
                                ),
                                out@.len() == k,
                                forall|j: int|
                                    0 <= j < k ==> (#[trigger] out@[j]).0@ == hs@[j].0@
                                        && out@[j].1@ == replace_spec(self.secrets@, hs@[j].1@),
                            decreases hs@.len() - k,
                        {
                            let hname = hs[k].0.clone();
                            let hval = self.secrets.replace(hs[k].1.as_str());
                            let name_ok = is_valid_header_name(hname.as_str());
                            let val_ok = is_valid_header_value(hval.as_str());
                            if !name_ok || !val_ok {
                                return NotifyOrder::Invalid(
                                    Error::WebhookInvalidHeader { name: hname, value: hval },
                                );
                            }
                            out.push((hname, hval));
                            k = k + 1;
                        }
                        NotifyOrder::Webhook { url: u, method: m, headers: out }
                    },
                }
            },
        }
    }

    /// The orders owed for the given notify entries of a job in `state`:
    /// one per target, in declaration order.
    #[verifier::loop_isolation(false)]
    pub fn notify(
        &self,
        notifies: &Vec<&Notify>,
        state: JobState,
        name: &str,
        repo: &Repository,
        ref_typ: &Ref,
        context: Option<&str>,
    ) -> (orders: Vec<NotifyOrder>)
        ensures
            orders@.len() == all_targets_from(notifies@).len(),
            forall|i: int|
                0 <= i < orders@.len() ==> order_for_target(
                    self.secrets@,
                    self.mailer_present,
                    all_targets_from(notifies@)[i],
                    state,
                    name@,
                    ref_typ.display_spec(),
                    repo.ref_spec(),
                    context_view(context),
                    #[trigger] orders@[i],
                ),
    {
        let ghost targets = all_targets_from(notifies@);
        let repo_ref = repo.get_ref();
        let mut orders: Vec<NotifyOrder> = Vec::new();
        let mut i: usize = 0;
        proof {
            assert(notifies@.subrange(0, 0) =~= Seq::<&Notify>::empty());
        }
        while i < notifies.len()
            invariant
                targets == all_targets_from(notifies@),
                repo_ref@ == repo.ref_spec(),
                0 <= i <= notifies@.len(),
                orders@.len() == all_targets_from(notifies@.subrange(0, i as int)).len(),
                all_targets_from(notifies@.subrange(0, i as int)) =~= targets.subrange(
                    0,
                    orders@.len() as int,
                ),
                forall|j: int|
                    0 <= j < orders@.len() ==> order_for_target(
                        self.secrets@,
                        self.mailer_present,
                        targets[j],
                        state,
                        name@,
                        ref_typ.display_spec(),
                        repo.ref_spec(),
                        context_view(context),
                        #[trigger] orders@[j],
                    ),
            decreases notifies@.len() - i,
        {
            let n: &Notify = notifies[i];
            let ghost base = orders@.len() as int;
            proof {
                lemma_all_targets_take(notifies@, i as int);
                lemma_all_targets_concat(
                    notifies@.subrange(0, i + 1),
                    notifies@.subrange(i + 1, notifies@.len() as int),
                );
                assert(notifies@.subrange(0, i + 1) + notifies@.subrange(
                    i + 1,
                    notifies@.len() as int,
                ) =~= notifies@);
                assert(all_targets_from(notifies@.subrange(0, i + 1)) =~= targets.subrange(
                    0,
                    base + n.to@.len(),
                ));
                assert forall|m: int| 0 <= m < n.to@.len() implies targets[base + m] == n.to@[m] by {
                    assert(all_targets_from(notifies@.subrange(0, i + 1))[base + m] == (
                    all_targets_from(notifies@.subrange(0, i as int)) + n.to@)[base + m]);
                    assert(targets.subrange(0, base + n.to@.len() as int)[base + m] == targets[base
                        + m]);
                }
            }
            let mut j: usize = 0;
            while j < n.to.len()
                invariant
                    0 <= j <= n.to@.len(),
                    orders@.len() == base + j,
                    forall|m: int|
                        0 <= m < orders@.len() ==> order_for_target(
                            self.secrets@,
                            self.mailer_present,
                            targets[m],
                            state,
                            name@,
                            ref_typ.display_spec(),
                            repo.ref_spec(),
                            context_view(context),
                            #[trigger] orders@[m],
                        ),
                decreases n.to@.len() - j,
            {
                let o = self.target_order(&n.to[j], state, name, ref_typ, repo_ref, context);
                orders.push(o);
                j = j + 1;
            }
            proof {
                assert(all_targets_from(notifies@.subrange(0, i + 1)) =~= targets.subrange(
                    0,
                    orders@.len() as int,
                ));
            }
            i = i + 1;
        }
        proof {
            assert(notifies@.subrange(0, notifies@.len() as int) =~= notifies@);
            assert(targets.subrange(0, targets.len() as int) =~= targets);
        }
        orders
    }

    /// The orders owed when `job` reaches `state`: none at all when the
    /// job declares no notifies, else one per target of the entries
    /// whose events cover the state.
    pub fn state_orders(
        &self,
        job: &Job,
        state: JobState,
        name: &str,
        repo: &Repository,
        ref_typ: &Ref,
        context: Option<&str>,
    ) -> (orders: Vec<NotifyOrder>)
        ensures
            job_orders_ok(
                self.secrets@,
                self.mailer_present,
                *job,
                state,
                name@,
                *ref_typ,
                repo.ref_spec(),
                context_view(context),
                orders@,
            ),
    {
        match job.get_notify(state) {
            None => Vec::new(),
            Some(list) => {
                let orders = self.notify(&list, state, name, repo, ref_typ, context);
                proof {
                    let sel = job.get_notify_spec(state)->Some_0;
                    lemma_all_targets_deref(list@, sel);
                }
                orders
            },
        }
    }
}

} // verus!
