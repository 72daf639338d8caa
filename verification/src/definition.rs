//! The in-repository job manifest and the values it is made of.
//!
//! A `Definition` names the project and lists its jobs in declaration
//! order. A job may carry a reference filter, notification entries, a
//! shell override and the script to run. References are parsed from
//! `refs/heads/<name>` and `refs/tags/<name>` paths and printed back by
//! the inverse mapping.

use vstd::prelude::*;
use vstd::string::*;

use crate::strutil::starts_with;

verus! {

/// The reference a push names could not be understood.
#[derive(Debug)]
pub struct RefParseError;

/// The branch or tag a push updates, or a filter over one of the two.
#[derive(Debug)]
pub enum Ref {
    Branch(String),
    Tag(String),
}

impl Clone for Ref {
    fn clone(&self) -> (r: Self)
        ensures
            r == *self,
    {
        match self {
            Ref::Branch(n) => Ref::Branch(n.clone()),
            Ref::Tag(n) => Ref::Tag(n.clone()),
        }
    }
}

/// Whether the regular expression `pattern` matches somewhere in `text`;
/// a pattern that does not compile matches nothing.
pub uninterp spec fn regex_match(pattern: Seq<char>, text: Seq<char>) -> bool;

/// Relies on regex::Regex::new and Regex::is_match: whether the pattern
/// compiles, and whether it then matches the text, depend on the two
/// strings alone; a pattern that does not compile is treated as matching
/// nothing.
#[verifier::external_body]
fn rx_match(rx: &str, rf: &str) -> (b: bool)
    ensures
        b == regex_match(rx@, rf@),
{
    match regex::Regex::new(rx) {
        Ok(re) => re.is_match(rf),
        Err(_) => false,
    }
}

/// Does the filter select the reference: both of the same kind, and the
/// filter text, read as a regular expression, matching the name.
pub open spec fn ref_matches_spec(filter: Ref, rf: Ref) -> bool {
    match (filter, rf) {
        (Ref::Branch(rx), Ref::Branch(name)) => regex_match(rx@, name@),
        (Ref::Tag(rx), Ref::Tag(name)) => regex_match(rx@, name@),
        _ => false,
    }
}

impl Ref {
    /// The ref path this reference prints as.
    pub open spec fn display_spec(&self) -> Seq<char> {
        match self {
            Ref::Branch(n) => "refs/heads/"@ + n@,
            Ref::Tag(n) => "refs/tags/"@ + n@,
        }
    }

    /// The ref path as text: `refs/heads/<name>` or `refs/tags/<name>`.
    pub fn display(&self) -> (r: String)
        ensures
            r@ == self.display_spec(),
    {
        let mut s = String::new();
        match self {
            Ref::Branch(n) => {
                s.append("refs/heads/");
                s.append(n.as_str());
            },
            Ref::Tag(n) => {
                s.append("refs/tags/");
                s.append(n.as_str());
            },
        }
        proof {
            assert(s@ =~= self.display_spec());
        }
        s
    }

    /// Reads a ref path back: exactly the two forms `display` produces
    /// succeed, anything else is an error.
    pub fn parse(s: &str) -> (r: Result<Ref, RefParseError>)
        ensures
            match r {
                Ok(rf) => s@ == rf.display_spec(),
                Err(_) => forall|rf: Ref| s@ != #[trigger] rf.display_spec(),
            },
    {
        proof {
            reveal_strlit("refs/heads/");
            reveal_strlit("refs/tags/");
        }
        let len = s.unicode_len();
        if starts_with(s, "refs/heads/") {
            let name = s.substring_char(11, len).to_owned();
            proof {
                assert(s@ =~= "refs/heads/"@ + name@);
            }
            Ok(Ref::Branch(name))
        } else if starts_with(s, "refs/tags/") {
            let name = s.substring_char(10, len).to_owned();
            proof {
                assert(s@ =~= "refs/tags/"@ + name@);
            }
            Ok(Ref::Tag(name))
        } else {
            proof {
                assert forall|rf: Ref| s@ != #[trigger] rf.display_spec() by {
                    match rf {
                        Ref::Branch(n) => {
                            if s@ == "refs/heads/"@ + n@ {
                                assert(s@.subrange(0, 11) =~= "refs/heads/"@);
                            }
                        },
                        Ref::Tag(n) => {
                            if s@ == "refs/tags/"@ + n@ {
                                assert(s@.subrange(0, 10) =~= "refs/tags/"@);
                            }
                        },
                    }
                }
            }
            Err(RefParseError)
        }
    }

    /// Does this filter select the given reference?
    pub fn matches(&self, rf: &Ref) -> (r: bool)
        ensures
            r == ref_matches_spec(*self, *rf),
    {
        match (self, rf) {
            (Ref::Branch(rx), Ref::Branch(name)) => rx_match(rx.as_str(), name.as_str()),
            (Ref::Tag(rx), Ref::Tag(name)) => rx_match(rx.as_str(), name.as_str()),
            _ => false,
        }
    }
}

/// Two references printing as the same path are the same reference:
/// the same kind, with the same name.
pub proof fn lemma_display_injective(a: Ref, b: Ref)
    requires
        a.display_spec() == b.display_spec(),
    ensures
        match (a, b) {
            (Ref::Branch(n1), Ref::Branch(n2)) => n1@ == n2@,
            (Ref::Tag(n1), Ref::Tag(n2)) => n1@ == n2@,
            _ => false,
        },
{
    reveal_strlit("refs/heads/");
    reveal_strlit("refs/tags/");
    let ph = "refs/heads/"@;
    let pt = "refs/tags/"@;
    match (a, b) {
        (Ref::Branch(n1), Ref::Branch(n2)) => {
            assert(a.display_spec() == ph + n1@);
            assert(b.display_spec() == ph + n2@);
            assert(n1@.len() == n2@.len());
            assert forall|i: int| 0 <= i < n1@.len() implies n1@[i] == n2@[i] by {
                assert(n1@[i] == (ph + n1@)[ph.len() + i]);
                assert(n2@[i] == (ph + n2@)[ph.len() + i]);
            }
            assert(n1@ =~= n2@);
        },
        (Ref::Tag(n1), Ref::Tag(n2)) => {
            assert(a.display_spec() == pt + n1@);
            assert(b.display_spec() == pt + n2@);
            assert(n1@.len() == n2@.len());
            assert forall|i: int| 0 <= i < n1@.len() implies n1@[i] == n2@[i] by {
                assert(n1@[i] == (pt + n1@)[pt.len() + i]);
                assert(n2@[i] == (pt + n2@)[pt.len() + i]);
            }
            assert(n1@ =~= n2@);
        },
        (Ref::Branch(n1), Ref::Tag(n2)) => {
            assert((ph + n1@)[5] == 'h');
            assert((pt + n2@)[5] == 't');
        },
        (Ref::Tag(n1), Ref::Branch(n2)) => {
            assert((pt + n1@)[5] == 't');
            assert((ph + n2@)[5] == 'h');
        },
    }
}

/// The states a running job passes through that notifications can hang
/// on.
#[derive(Clone, Copy, Debug)]
pub enum JobState {
    Start,
    Success,
    Failure,
}

/// The events a notification entry may subscribe to.
#[derive(Clone, Debug)]
pub enum Event {
    Success,
    Failure,
    Finish,
    Start,
    All,
}

impl Event {
    /// Which job states this event stands for: `Finish` covers success
    /// and failure, `All` covers everything.
    pub open spec fn matches_spec(&self, e: JobState) -> bool {
        match self {
            Event::All => true,
            Event::Success => e is Success,
            Event::Failure => e is Failure,
            Event::Start => e is Start,
            Event::Finish => e is Success || e is Failure,
        }
    }

    /// Does this subscribed event cover the job state?
    pub fn matches(&self, e: &JobState) -> (r: bool)
        ensures
            r == self.matches_spec(*e),
    {
        match self {
            Event::All => true,
            Event::Success => matches!(e, JobState::Success),
            Event::Failure => matches!(e, JobState::Failure),
            Event::Start => matches!(e, JobState::Start),
            Event::Finish => matches!(e, JobState::Success) || matches!(e, JobState::Failure),
        }
    }
}

/// Where a notification goes: a mailbox, or an HTTP request.
#[derive(Clone, Debug)]
pub enum NotifyTarget {
    EMail { address: String },
    WebHook { url: String, method: Option<String>, headers: Option<Vec<(String, String)>> },
}

/// One notification entry of a job: its targets, and the events on which
/// it fires. Without an event list it fires never.
#[derive(Clone, Debug)]
pub struct Notify {
    pub to: Vec<NotifyTarget>,
    pub on: Option<Vec<Event>>,
}

/// Does the notify entry fire for the given job state? Only an explicit
/// event list can make it fire.
pub open spec fn notify_selected(n: Notify, e: JobState) -> bool {
    match n.on {
        Some(events) => exists|i: int|
            0 <= i < events@.len() && (#[trigger] events@[i]).matches_spec(e),
        None => false,
    }
}

/// A single string, or a list of them; how the manifest writes a shell
/// override.
#[derive(Clone, Debug)]
pub enum ValueOrList<T> {
    Value(T),
    List(Vec<T>),
}

/// One job of the manifest.
#[derive(Clone, Debug)]
pub struct Job {
    pub on: Option<Ref>,
    pub notify: Option<Vec<Notify>>,
    pub shell: Option<ValueOrList<String>>,
    pub await_result: Option<bool>,
    pub run: String,
}

/// The parsed `.minicd` manifest: the project name and its jobs, in
/// declaration order.
#[derive(Clone, Debug)]
pub struct Definition {
    pub name: String,
    pub jobs: Vec<(String, Job)>,
}

impl Job {
    /// The notify entries that fire for `event`, when the job declares
    /// any at all.
    pub open spec fn get_notify_spec(&self, event: JobState) -> Option<Seq<Notify>> {
        match self.notify {
            Some(ns) => Some(ns@.filter(|n: Notify| notify_selected(n, event))),
            None => None,
        }
    }

    /// The notify entries whose events cover `event`, kept in
    /// declaration order; none when the job declares no notifies at all.
    pub fn get_notify(&self, event: JobState) -> (r: Option<Vec<&Notify>>)
        ensures
            match r {
                Some(v) => {
                    &&& self.get_notify_spec(event) matches Some(f)
                    &&& v@.len() == f.len()
                    &&& forall|i: int| 0 <= i < v@.len() ==> *(#[trigger] v@[i]) == f[i]
                },
                None => self.notify is None,
            },
    {
        match &self.notify {
            None => None,
            Some(notifies) => {
                let ghost pred = |n: Notify| notify_selected(n, event);
                let mut picked: Vec<&Notify> = Vec::new();
                let mut i: usize = 0;
                proof {
                    assert(notifies@.subrange(0, 0) =~= Seq::<Notify>::empty());
                    assert(Seq::<Notify>::empty().filter(pred) =~= Seq::<Notify>::empty());
                }
                while i < notifies.len()
                    invariant
                        pred == (|n: Notify| notify_selected(n, event)),
                        0 <= i <= notifies@.len(),
                        picked@.len() == notifies@.subrange(0, i as int).filter(pred).len(),
                        forall|j: int|
                            0 <= j < picked@.len() ==> *(#[trigger] picked@[j]) == notifies@.subrange(
                                0,
                                i as int,
                            ).filter(pred)[j],
                    decreases notifies@.len() - i,
                {
                    let n = &notifies[i];
                    let fires = match &n.on {
                        None => false,
                        Some(events) => {
                            let mut found = false;
                            let mut k: usize = 0;
                            while k < events.len()
                                invariant
                                    0 <= k <= events@.len(),
                                    found == exists|m: int|
                                        0 <= m < k && (#[trigger] events@[m]).matches_spec(event),
                                decreases events@.len() - k,
                            {
                                if events[k].matches(&event) {
                                    found = true;
                                }
                                k = k + 1;
                            }
                            found
                        },
                    };
                    proof {
                        assert(fires == notify_selected(notifies@[i as int], event));
                        let sub1 = notifies@.subrange(0, i + 1);
                        assert(sub1.drop_last() =~= notifies@.subrange(0, i as int));
                        assert(sub1.last() == notifies@[i as int]);
                        reveal_with_fuel(Seq::filter, 2);
                    }
                    if fires {
                        picked.push(n);
                    }
                    i = i + 1;
                }
                proof {
                    assert(notifies@.subrange(0, notifies@.len() as int) =~= notifies@);
                }
                Some(picked)
            },
        }
    }
}

impl JobState {
    /// The words a notification subject opens with for this state.
    pub open spec fn subject_prefix_spec(&self) -> Seq<char> {
        match self {
            JobState::Start => "Job processing started"@,
            JobState::Success => "Job finished successful"@,
            JobState::Failure => "Job failed"@,
        }
    }

    pub fn get_subject_prefix(&self) -> (r: &'static str)
        ensures
            r@ == self.subject_prefix_spec(),
    {
        match self {
            Self::Start => "Job processing started",
            Self::Success => "Job finished successful",
            Self::Failure => "Job failed",
        }
    }

    /// The subject line: the state's words, then project and reference.
    pub open spec fn subject_spec(&self, name: Seq<char>, rf_disp: Seq<char>) -> Seq<char> {
        self.subject_prefix_spec() + ": "@ + name + " @ "@ + rf_disp
    }

    pub fn get_subject(&self, name: &str, ref_typ: &Ref) -> (r: String)
        ensures
            r@ == self.subject_spec(name@, ref_typ.display_spec()),
    {
        let mut s = String::new();
        s.append(self.get_subject_prefix());
        s.append(": ");
        s.append(name);
        s.append(" @ ");
        s.append(ref_typ.display().as_str());
        proof {
            assert(s@ =~= self.subject_spec(name@, ref_typ.display_spec()));
        }
        s
    }

    /// The message body: what happened on which project, the reference
    /// and resolved name, and the context the state carries.
    pub open spec fn body_spec(
        &self,
        name: Seq<char>,
        rf_disp: Seq<char>,
        rf: Seq<char>,
        context: Seq<char>,
    ) -> Seq<char> {
        match self {
            JobState::Start => "A job has been started on project "@ + name + ".\n\nReference: "@
                + rf_disp + " ("@ + rf + ")\n"@,
            JobState::Success => "A job on project "@ + name
                + " has finished successful.\n\nReference: "@ + rf_disp + " ("@ + rf
                + ")\n\nLogs:\n"@ + context + "\n"@,
            JobState::Failure => "A job on project "@ + name + " has failed.\n\nReference: "@
                + rf_disp + " ("@ + rf + ")\n\nError:\n"@ + context + "\n"@,
        }
    }

    pub fn get_body(&self, name: &str, ref_typ: &Ref, rf: &str, context: Option<&str>) -> (r:
        String)
        ensures
            r@ == self.body_spec(
                name@,
                ref_typ.display_spec(),
                rf@,
                match context {
                    Some(c) => c@,
                    None => Seq::<char>::empty(),
                },
            ),
    {
        let ctx: &str = match context {
            Some(c) => c,
            None => "",
        };
        proof {
            reveal_strlit("");
            assert(""@ =~= Seq::<char>::empty());
        }
        let disp = ref_typ.display();
        let mut s = String::new();
        match self {
            Self::Start => {
                s.append("A job has been started on project ");
                s.append(name);
                s.append(".\n\nReference: ");
                s.append(disp.as_str());
                s.append(" (");
                s.append(rf);
                s.append(")\n");
            },
            Self::Success => {
                s.append("A job on project ");
                s.append(name);
                s.append(" has finished successful.\n\nReference: ");
                s.append(disp.as_str());
                s.append(" (");
                s.append(rf);
                s.append(")\n\nLogs:\n");
                s.append(ctx);
                s.append("\n");
            },
            Self::Failure => {
                s.append("A job on project ");
                s.append(name);
                s.append(" has failed.\n\nReference: ");
                s.append(disp.as_str());
                s.append(" (");
                s.append(rf);
                s.append(")\n\nError:\n");
                s.append(ctx);
                s.append("\n");
            },
        }
        proof {
            assert(s@ =~= self.body_spec(
                name@,
                ref_typ.display_spec(),
                rf@,
                match context {
                    Some(c) => c@,
                    None => Seq::<char>::empty(),
                },
            ));
        }
        s
    }
}

} // verus!
