//! The sequence of `git` calls behind a commit from the SCM panel, as a
//! state machine: each call's outcome decides the next call or the
//! result. A plain commit stages every change, snapshots the index,
//! commits, and restores the snapshot when the commit fails. A commit on
//! a new branch first validates and creates the branch, and rolls back
//! to the previous head when the commit fails. Running git is the
//! caller's: it runs each [`CommitStep::Run`] and hands the outcome to
//! [`CommitFlow::advance`].
use vstd::prelude::*;
use crate::blame::{lossy_utf8, utf8_lossy};
use crate::lsp::translate::opt_view;
use crate::git_run::{
    args2, args3, args4, launch_error, launch_failure, lossy_trimmed, printed_name, printed_name_of, printed_or_empty,
    printed_or_empty_of, succeeded, GitRun, GitRunView,
};
use crate::commit::{
    commit_args, commit_args_spec, commit_failure, commit_failure_view, commit_subject, exit_message, stage_failure,
    subject_of, switch_failure, GitCommitResult,
};
use crate::error::{Failure, MoonError};
use crate::text::{chars_of, push_str_chars, string_from_chars, string_from_range, trim, trim_bounds, utf8_str};
use crate::workspace::{debug_quoted, debug_text};

verus! {

/// The call a flow waits on.
#[derive(Clone, Copy, Debug, PartialEq, Eq, Structural)]
pub enum CommitStage {
    /// `git check-ref-format --branch <branch>`.
    CheckRefFormat,
    /// `git symbolic-ref --quiet --short HEAD`: the branch to roll back to.
    PreviousRef,
    /// `git rev-parse HEAD`: the commit to roll back to on a detached head.
    PreviousSha,
    /// `git switch -c <branch>`.
    CreateBranch,
    /// `git add -A`.
    Stage,
    /// `git stash create`: the safety snapshot of the staged index.
    Snapshot,
    /// `git commit ...`, in the C locale.
    Commit,
    /// `git read-tree --reset <snapshot>`.
    ReadTree,
    /// `git checkout-index -a -f`.
    CheckoutIndex,
    /// `git stash store ... <snapshot>`: keep the snapshot for the user.
    StoreSnapshot,
    /// `git rev-parse --short HEAD`.
    ShortSha,
    /// `git log -1 --pretty=%s`.
    HeadSubject,
    /// `git switch <previous>`.
    SwitchBack,
    /// `git branch -D <branch>`.
    DeleteBranch,
    /// The result has been reported.
    Finished,
}

/// Where a commit stands between two `git` calls.
pub struct CommitFlow {
    message: String,
    amend: bool,
    branch: Option<String>,
    rollback: Option<String>,
    snapshot: Option<String>,
    short_sha: String,
    failure: Option<MoonError>,
    stage: CommitStage,
}

/// A [`CommitFlow`] as a value: the message and amend flag; the new
/// branch, if any, and the ref to roll back to; the safety snapshot;
/// the short name of the new head; the failure being reported once the
/// tree is restored and the branch rolled back; the outstanding call.
pub ghost struct FlowView {
    pub message: Seq<char>,
    pub amend: bool,
    pub branch: Option<Seq<char>>,
    pub rollback: Option<Seq<char>>,
    pub snapshot: Option<Seq<char>>,
    pub short_sha: Seq<char>,
    pub failure: Option<Failure>,
    pub stage: CommitStage,
}

pub open spec fn opt_failure(o: Option<MoonError>) -> Option<Failure> {
    match o {
        Some(e) => Some(e@),
        None => None,
    }
}

impl View for CommitFlow {
    type V = FlowView;

    closed spec fn view(&self) -> FlowView {
        FlowView {
            message: self.message@,
            amend: self.amend,
            branch: opt_view(self.branch),
            rollback: opt_view(self.rollback),
            snapshot: opt_view(self.snapshot),
            short_sha: self.short_sha@,
            failure: opt_failure(self.failure),
            stage: self.stage,
        }
    }
}

/// What to do next.
pub enum CommitStep {
    /// Run `git -C <root> <args>`, with `LC_ALL=C` when `c_locale`, and
    /// hand its outcome to [`CommitFlow::advance`].
    Run { args: Vec<String>, c_locale: bool },
    /// The flow is over: the commit made, or why not.
    Done(Result<GitCommitResult, MoonError>),
}

/// A [`CommitStep`] as a value.
pub ghost enum StepView {
    Run(Seq<Seq<char>>, bool),
    Done(Result<(Seq<char>, Seq<char>), Failure>),
}

impl View for CommitStep {
    type V = StepView;

    open spec fn view(&self) -> StepView {
        match self {
            CommitStep::Run { args, c_locale } => StepView::Run(args.deep_view(), *c_locale),
            CommitStep::Done(Ok(c)) => StepView::Done(Ok((c.short_sha@, c.summary@))),
            CommitStep::Done(Err(e)) => StepView::Done(Err(e@)),
        }
    }
}

/// The stages that report a recorded failure: restoring the snapshot
/// and rolling the branch back.
pub open spec fn recovering(stage: CommitStage) -> bool {
    ||| stage == CommitStage::ReadTree
    ||| stage == CommitStage::CheckoutIndex
    ||| stage == CommitStage::StoreSnapshot
    ||| stage == CommitStage::SwitchBack
    ||| stage == CommitStage::DeleteBranch
}

/// The stages that only a commit on a new branch goes through.
pub open spec fn branch_stage(stage: CommitStage) -> bool {
    ||| stage == CommitStage::CheckRefFormat
    ||| stage == CommitStage::PreviousRef
    ||| stage == CommitStage::PreviousSha
    ||| stage == CommitStage::CreateBranch
    ||| stage == CommitStage::SwitchBack
    ||| stage == CommitStage::DeleteBranch
}

/// A flow's state is consistent with the call it waits on.
pub open spec fn flow_wf(v: FlowView) -> bool {
    &&& branch_stage(v.stage) ==> v.branch is Some
    &&& v.stage != CommitStage::Finished ==> (v.failure is Some <==> recovering(v.stage))
    &&& (v.stage == CommitStage::ReadTree || v.stage == CommitStage::CheckoutIndex || v.stage == CommitStage::StoreSnapshot)
        ==> v.snapshot is Some
    &&& v.stage == CommitStage::SwitchBack ==> v.rollback is Some
}

/// Why `branch` is not a branch name, from the trimmed stderr of
/// `git check-ref-format`.
pub open spec fn bad_branch_detail(branch: Seq<char>, stderr: Seq<char>) -> Seq<char> {
    if stderr.len() == 0 {
        debug_quoted(branch) + " is not a valid git branch name"@
    } else {
        debug_quoted(branch) + ": "@ + stderr
    }
}

/// The label under which an unrestorable snapshot is kept.
pub open spec fn snapshot_label() -> Seq<char> {
    "moon-ide commit safety snapshot \u{2014} recover with `git stash pop`"@
}

/// The flow ends with `result`.
pub open spec fn finish(v: FlowView, result: Result<(Seq<char>, Seq<char>), Failure>) -> (FlowView, StepView) {
    (FlowView { stage: CommitStage::Finished, ..v }, StepView::Done(result))
}

/// The commit failed with `e`: a new branch is rolled back first, when
/// there is a head to go back to; otherwise `e` is the result.
pub open spec fn fail(v: FlowView, e: Failure) -> (FlowView, StepView) {
    match (v.branch, v.rollback) {
        (Some(_), Some(target)) => (
            FlowView { failure: Some(e), stage: CommitStage::SwitchBack, ..v },
            StepView::Run(seq!["switch"@, target], false),
        ),
        _ => finish(v, Err(e)),
    }
}

/// The snapshot could not be restored: keep it in the stash list.
pub open spec fn store_snapshot(v: FlowView) -> (FlowView, StepView) {
    (
        FlowView { stage: CommitStage::StoreSnapshot, ..v },
        StepView::Run(seq!["stash"@, "store"@, "--quiet"@, "-m"@, snapshot_label(), v.snapshot.unwrap()], false),
    )
}

/// The next state and step of flow `v` once its outstanding call ended
/// as `run`.
pub open spec fn transition(v: FlowView, run: GitRunView) -> (FlowView, StepView) {
    match v.stage {
        CommitStage::CheckRefFormat => match run {
            GitRunView::NotLaunched(e) => finish(v, Err(launch_failure("git check-ref-format"@, e))),
            GitRunView::Exited(false, _, _, err) => finish(
                v,
                Err(Failure::InvalidArgument(bad_branch_detail(v.branch.unwrap(), trim(lossy_utf8(err))))),
            ),
            GitRunView::Exited(true, _, _, _) => (
                FlowView { stage: CommitStage::PreviousRef, ..v },
                StepView::Run(seq!["symbolic-ref"@, "--quiet"@, "--short"@, "HEAD"@], false),
            ),
        },
        CommitStage::PreviousRef => (
            FlowView { rollback: printed_name(run), stage: CommitStage::PreviousSha, ..v },
            StepView::Run(seq!["rev-parse"@, "HEAD"@], false),
        ),
        CommitStage::PreviousSha => (
            FlowView {
                rollback: if v.rollback is Some { v.rollback } else { printed_name(run) },
                stage: CommitStage::CreateBranch,
                ..v
            },
            StepView::Run(seq!["switch"@, "-c"@, v.branch.unwrap()], false),
        ),
        CommitStage::CreateBranch => match run {
            GitRunView::NotLaunched(e) => finish(v, Err(launch_failure("git switch -c"@, e))),
            GitRunView::Exited(false, code, out, err) => finish(
                v,
                Err(Failure::IoError(exit_message(
                    "git switch -c"@,
                    code,
                    if trim(lossy_utf8(err)).len() == 0 { trim(lossy_utf8(out)) } else { trim(lossy_utf8(err)) },
                ))),
            ),
            GitRunView::Exited(true, _, _, _) => (
                FlowView { stage: CommitStage::Stage, ..v },
                StepView::Run(seq!["add"@, "-A"@], false),
            ),
        },
        CommitStage::Stage => match run {
            GitRunView::NotLaunched(e) => fail(v, launch_failure("git add"@, e)),
            GitRunView::Exited(false, code, _, err) => fail(
                v,
                Failure::IoError(exit_message("git add"@, code, trim(lossy_utf8(err)))),
            ),
            GitRunView::Exited(true, _, _, _) => (
                FlowView { stage: CommitStage::Snapshot, ..v },
                StepView::Run(seq!["stash"@, "create"@], false),
            ),
        },
        CommitStage::Snapshot => (
            FlowView { snapshot: printed_name(run), stage: CommitStage::Commit, ..v },
            StepView::Run(seq!["commit"@] + commit_args_spec(v.message, v.amend), true),
        ),
        CommitStage::Commit => match run {
            GitRunView::NotLaunched(e) => fail(v, launch_failure("git commit"@, e)),
            GitRunView::Exited(false, code, out, err) => {
                let e = commit_failure_view(lossy_utf8(out), trim(lossy_utf8(err)), code);
                match v.snapshot {
                    Some(sha) => (
                        FlowView { failure: Some(e), stage: CommitStage::ReadTree, ..v },
                        StepView::Run(seq!["read-tree"@, "--reset"@, sha], false),
                    ),
                    None => fail(v, e),
                }
            },
            GitRunView::Exited(true, _, _, _) => (
                FlowView { stage: CommitStage::ShortSha, ..v },
                StepView::Run(seq!["rev-parse"@, "--short"@, "HEAD"@], false),
            ),
        },
        CommitStage::ReadTree => if succeeded(run) {
            (
                FlowView { stage: CommitStage::CheckoutIndex, ..v },
                StepView::Run(seq!["checkout-index"@, "-a"@, "-f"@], false),
            )
        } else {
            store_snapshot(v)
        },
        CommitStage::CheckoutIndex => if succeeded(run) {
            fail(v, v.failure.unwrap())
        } else {
            store_snapshot(v)
        },
        CommitStage::StoreSnapshot => fail(v, v.failure.unwrap()),
        CommitStage::ShortSha => {
            let sha = printed_or_empty(run);
            if v.amend && v.message.len() == 0 {
                (
                    FlowView { short_sha: sha, stage: CommitStage::HeadSubject, ..v },
                    StepView::Run(seq!["log"@, "-1"@, "--pretty=%s"@], false),
                )
            } else {
                finish(FlowView { short_sha: sha, ..v }, Ok((sha, subject_of(v.message))))
            }
        },
        CommitStage::HeadSubject => finish(v, Ok((v.short_sha, printed_or_empty(run)))),
        CommitStage::SwitchBack => match run {
            GitRunView::NotLaunched(_) => finish(v, Err(v.failure.unwrap())),
            GitRunView::Exited(_, _, _, _) => (
                FlowView { stage: CommitStage::DeleteBranch, ..v },
                StepView::Run(seq!["branch"@, "-D"@, v.branch.unwrap()], false),
            ),
        },
        CommitStage::DeleteBranch => finish(v, Err(v.failure.unwrap())),
        CommitStage::Finished => (v, StepView::Done(Err(v.failure.unwrap()))),
    }
}

/// Every transition keeps a flow consistent.
proof fn lemma_transition_wf(v: FlowView, run: GitRunView)
    requires
        flow_wf(v),
        v.stage != CommitStage::Finished,
    ensures
        flow_wf(transition(v, run).0),
{
}

/// The order in which a flow passes its stages.
pub open spec fn stage_rank(stage: CommitStage) -> int {
    match stage {
        CommitStage::CheckRefFormat => 0,
        CommitStage::PreviousRef => 1,
        CommitStage::PreviousSha => 2,
        CommitStage::CreateBranch => 3,
        CommitStage::Stage => 4,
        CommitStage::Snapshot => 5,
        CommitStage::Commit => 6,
        CommitStage::ReadTree => 7,
        CommitStage::ShortSha => 7,
        CommitStage::CheckoutIndex => 8,
        CommitStage::HeadSubject => 8,
        CommitStage::StoreSnapshot => 9,
        CommitStage::SwitchBack => 10,
        CommitStage::DeleteBranch => 11,
        CommitStage::Finished => 12,
    }
}

/// Every call moves a flow forward, so a flow ends after a bounded
/// number of calls, whatever git answers.
pub proof fn law_each_call_moves_forward(v: FlowView, run: GitRunView)
    requires
        flow_wf(v),
        v.stage != CommitStage::Finished,
    ensures
        stage_rank(transition(v, run).0.stage) > stage_rank(v.stage),
        transition(v, run).1 is Done <==> transition(v, run).0.stage == CommitStage::Finished,
{
}

/// Once a commit has failed, that failure is what the flow reports:
/// restoring the snapshot and rolling the branch back only add calls.
pub proof fn law_recorded_failure_is_reported(v: FlowView, run: GitRunView)
    requires
        flow_wf(v),
        v.stage != CommitStage::Finished,
        v.failure is Some,
    ensures
        ({
            let (n, s) = transition(v, run);
            (s is Run && n.failure == v.failure) || s == StepView::Done(Err(v.failure.unwrap()))
        }),
{
}

/// A commit that fails after the index was snapshotted restores the
/// index from the snapshot before anything else.
pub proof fn law_failed_commit_restores_snapshot(v: FlowView, code: i32, out: Seq<u8>, err: Seq<u8>)
    requires
        flow_wf(v),
        v.stage == CommitStage::Commit,
        v.snapshot is Some,
    ensures
        ({
            let (n, s) = transition(v, GitRunView::Exited(false, code, out, err));
            &&& s == StepView::Run(seq!["read-tree"@, "--reset"@, v.snapshot.unwrap()], false)
            &&& n.failure == Some(commit_failure_view(lossy_utf8(out), trim(lossy_utf8(err)), code))
        }),
{
}

/// A flow reports success only once `git commit` itself succeeded.
pub proof fn law_success_follows_commit(v: FlowView, run: GitRunView)
    requires
        flow_wf(v),
        v.stage != CommitStage::Finished,
    ensures
        transition(v, run).1 matches StepView::Done(Ok(_)) ==> (v.stage == CommitStage::ShortSha || v.stage
            == CommitStage::HeadSubject),
        transition(v, run).0.stage == CommitStage::ShortSha ==> (v.stage == CommitStage::Commit && succeeded(run)),
        transition(v, run).0.stage == CommitStage::HeadSubject ==> v.stage == CommitStage::ShortSha,
{
}

/// Only `git commit` runs in the C locale, so that its "nothing to
/// commit" is recognised whatever the user's language.
pub proof fn law_only_commit_in_c_locale(v: FlowView, run: GitRunView)
    requires
        flow_wf(v),
        v.stage != CommitStage::Finished,
    ensures
        transition(v, run).1 matches StepView::Run(args, c_locale) ==> args.len() > 0 && (c_locale <==> args[0]
            == "commit"@),
{
    if v.stage == CommitStage::Snapshot {
        let a = seq!["commit"@] + commit_args_spec(v.message, v.amend);
        assert(a[0] == "commit"@);
    }
    lemma_subcommands_distinct();
}

/// A plain commit (or an amend) never switches, creates or deletes a
/// branch.
pub proof fn law_plain_commit_keeps_branches(v: FlowView, run: GitRunView)
    requires
        flow_wf(v),
        v.stage != CommitStage::Finished,
        v.branch is None,
    ensures
        transition(v, run).1 matches StepView::Run(args, _) ==> args.len() > 0 && args[0] != "switch"@ && args[0]
            != "branch"@ && args[0] != "check-ref-format"@,
{
    if v.stage == CommitStage::Snapshot {
        let a = seq!["commit"@] + commit_args_spec(v.message, v.amend);
        assert(a[0] == "commit"@);
    }
    lemma_subcommands_distinct();
}

/// The subcommands a flow runs differ from one another.
proof fn lemma_subcommands_distinct()
    ensures
        "commit"@.len() == 6 && "commit"@[0] == 'c' && "commit"@[1] == 'o',
        "symbolic-ref"@.len() == 12 && "symbolic-ref"@[0] == 's' && "symbolic-ref"@[1] == 'y',
        "rev-parse"@.len() == 9 && "rev-parse"@[0] == 'r' && "rev-parse"@[1] == 'e',
        "switch"@.len() == 6 && "switch"@[0] == 's' && "switch"@[1] == 'w',
        "add"@.len() == 3 && "add"@[0] == 'a' && "add"@[1] == 'd',
        "stash"@.len() == 5 && "stash"@[0] == 's' && "stash"@[1] == 't',
        "read-tree"@.len() == 9 && "read-tree"@[0] == 'r' && "read-tree"@[1] == 'e',
        "checkout-index"@.len() == 14 && "checkout-index"@[0] == 'c' && "checkout-index"@[1] == 'h',
        "log"@.len() == 3 && "log"@[0] == 'l' && "log"@[1] == 'o',
        "branch"@.len() == 6 && "branch"@[0] == 'b' && "branch"@[1] == 'r',
        "check-ref-format"@.len() == 16 && "check-ref-format"@[0] == 'c' && "check-ref-format"@[1] == 'h',
{
    reveal_strlit("commit");
    reveal_strlit("symbolic-ref");
    reveal_strlit("rev-parse");
    reveal_strlit("switch");
    reveal_strlit("add");
    reveal_strlit("stash");
    reveal_strlit("read-tree");
    reveal_strlit("checkout-index");
    reveal_strlit("log");
    reveal_strlit("branch");
    reveal_strlit("check-ref-format");
}

fn bad_branch_error(branch: &str, stderr: &str) -> (r: MoonError)
    ensures
        r@ == Failure::InvalidArgument(bad_branch_detail(branch@, stderr@)),
{
    let mut m = chars_of(debug_text(branch).as_str());
    if chars_of(stderr).len() == 0 {
        push_str_chars(&mut m, " is not a valid git branch name");
    } else {
        push_str_chars(&mut m, ": ");
        push_str_chars(&mut m, stderr);
    }
    MoonError::InvalidArgument(string_from_chars(m.as_slice()))
}

impl CommitFlow {
    /// A commit of every change in the working tree: with `message`, or
    /// for an amend with an empty `message`, keeping the head's message.
    /// The first step stages everything.
    pub fn start_commit(message: &str, amend: bool) -> (r: (CommitFlow, CommitStep))
        ensures
            flow_wf(r.0@),
            r.0@ == (FlowView {
                message: message@,
                amend,
                branch: None,
                rollback: None,
                snapshot: None,
                short_sha: seq![],
                failure: None,
                stage: CommitStage::Stage,
            }),
            r.1@ == StepView::Run(seq!["add"@, "-A"@], false),
    {
        let flow = CommitFlow {
            message: message.to_owned(),
            amend,
            branch: None,
            rollback: None,
            snapshot: None,
            short_sha: String::new(),
            failure: None,
            stage: CommitStage::Stage,
        };
        (flow, CommitStep::Run { args: args2("add", "-A"), c_locale: false })
    }

    /// A commit of every change on a new branch `branch`, made from the
    /// current head; an empty name is refused at once. The first step
    /// validates the name.
    pub fn start_commit_on_new_branch(branch: &str, message: &str) -> (r: (CommitFlow, CommitStep))
        ensures
            flow_wf(r.0@),
            branch@.len() == 0 ==> r.0@.stage == CommitStage::Finished && r.1@ == StepView::Done(
                Err(Failure::InvalidArgument("branch name is empty"@)),
            ),
            branch@.len() > 0 ==> r.0@ == (FlowView {
                message: message@,
                amend: false,
                branch: Some(branch@),
                rollback: None,
                snapshot: None,
                short_sha: seq![],
                failure: None,
                stage: CommitStage::CheckRefFormat,
            }) && r.1@ == StepView::Run(seq!["check-ref-format"@, "--branch"@, branch@], false),
    {
        let empty = chars_of(branch).len() == 0;
        let flow = CommitFlow {
            message: message.to_owned(),
            amend: false,
            branch: Some(branch.to_owned()),
            rollback: None,
            snapshot: None,
            short_sha: String::new(),
            failure: None,
            stage: if empty { CommitStage::Finished } else { CommitStage::CheckRefFormat },
        };
        if empty {
            (flow, CommitStep::Done(Err(MoonError::InvalidArgument("branch name is empty".to_owned()))))
        } else {
            (flow, CommitStep::Run { args: args3("check-ref-format", "--branch", branch), c_locale: false })
        }
    }

    /// The flow's state as a value.
    pub fn stage(&self) -> (r: CommitStage)
        ensures
            r == self@.stage,
    {
        self.stage
    }

    fn finish_err(&mut self, e: MoonError) -> (r: CommitStep)
        ensures
            (final(self)@, r@) == finish(old(self)@, Err(e@)),
    {
        self.stage = CommitStage::Finished;
        CommitStep::Done(Err(e))
    }

    fn after_branch_checks(&mut self, run: GitRun) -> (r: CommitStep)
        requires
            flow_wf(old(self)@),
            old(self)@.stage == CommitStage::CheckRefFormat || old(self)@.stage == CommitStage::PreviousRef
                || old(self)@.stage == CommitStage::PreviousSha || old(self)@.stage == CommitStage::CreateBranch,
        ensures
            (final(self)@, r@) == transition(old(self)@, run@),
    {
        let branch = match &self.branch {
            Some(b) => b.clone(),
            None => String::new(),
        };
        match self.stage {
            CommitStage::CheckRefFormat => match run {
                GitRun::NotLaunched { error } => self.finish_err(launch_error("git check-ref-format", error.as_str())),
                GitRun::Exited { success, stderr, .. } => {
                    if !success {
                        let se = lossy_trimmed(stderr.as_slice());
                        self.finish_err(bad_branch_error(branch.as_str(), se.as_str()))
                    } else {
                        self.stage = CommitStage::PreviousRef;
                        CommitStep::Run { args: args4("symbolic-ref", "--quiet", "--short", "HEAD"), c_locale: false }
                    }
                },
            },
            CommitStage::PreviousRef => {
                self.rollback = printed_name_of(&run);
                self.stage = CommitStage::PreviousSha;
                CommitStep::Run { args: args2("rev-parse", "HEAD"), c_locale: false }
            },
            CommitStage::PreviousSha => {
                if self.rollback.is_none() {
                    self.rollback = printed_name_of(&run);
                }
                self.stage = CommitStage::CreateBranch;
                CommitStep::Run { args: args3("switch", "-c", branch.as_str()), c_locale: false }
            },
            _ => match run {
                GitRun::NotLaunched { error } => self.finish_err(launch_error("git switch -c", error.as_str())),
                GitRun::Exited { success, code, stdout, stderr } => {
                    if !success {
                        let so = lossy_trimmed(stdout.as_slice());
                        let se = lossy_trimmed(stderr.as_slice());
                        self.finish_err(switch_failure(so.as_str(), se.as_str(), code))
                    } else {
                        self.stage = CommitStage::Stage;
                        CommitStep::Run { args: args2("add", "-A"), c_locale: false }
                    }
                },
            },
        }
    }

    fn after_commit_calls(&mut self, run: GitRun) -> (r: CommitStep)
        requires
            flow_wf(old(self)@),
            old(self)@.stage == CommitStage::Stage || old(self)@.stage == CommitStage::Snapshot
                || old(self)@.stage == CommitStage::Commit,
        ensures
            (final(self)@, r@) == transition(old(self)@, run@),
    {
        match self.stage {
            CommitStage::Stage => match run {
                GitRun::NotLaunched { error } => self.fail_with(launch_error("git add", error.as_str())),
                GitRun::Exited { success, code, stderr, .. } => {
                    if !success {
                        let se = lossy_trimmed(stderr.as_slice());
                        self.fail_with(stage_failure(se.as_str(), code))
                    } else {
                        self.stage = CommitStage::Snapshot;
                        CommitStep::Run { args: args2("stash", "create"), c_locale: false }
                    }
                },
            },
            CommitStage::Snapshot => {
                self.snapshot = printed_name_of(&run);
                self.stage = CommitStage::Commit;
                let tail = commit_args(self.message.as_str(), self.amend);
                let mut args: Vec<String> = Vec::new();
                args.push("commit".to_owned());
                let mut i: usize = 0;
                while i < tail.len()
                    invariant
                        i <= tail.len(),
                        args.deep_view() =~= seq!["commit"@] + tail.deep_view().take(i as int),
                    decreases tail.len() - i,
                {
                    let ghost before = args.deep_view();
                    let item = tail[i].clone();
                    args.push(item);
                    assert(args.deep_view() =~= before.push(tail[i as int]@));
                    assert(tail.deep_view().take(i + 1) =~= tail.deep_view().take(i as int).push(tail[i as int]@));
                    i = i + 1;
                }
                assert(tail.deep_view().take(tail.len() as int) =~= tail.deep_view());
                CommitStep::Run { args, c_locale: true }
            },
            _ => match run {
                GitRun::NotLaunched { error } => self.fail_with(launch_error("git commit", error.as_str())),
                GitRun::Exited { success, code, stdout, stderr } => {
                    if !success {
                        let so = utf8_lossy(stdout.as_slice());
                        let se = lossy_trimmed(stderr.as_slice());
                        let e = commit_failure(so.as_str(), se.as_str(), code);
                        match &self.snapshot {
                            Some(sha) => {
                                let args = args3("read-tree", "--reset", sha.as_str());
                                self.failure = Some(e);
                                self.stage = CommitStage::ReadTree;
                                CommitStep::Run { args, c_locale: false }
                            },
                            None => self.fail_with(e),
                        }
                    } else {
                        self.stage = CommitStage::ShortSha;
                        CommitStep::Run { args: args3("rev-parse", "--short", "HEAD"), c_locale: false }
                    }
                },
            },
        }
    }

    fn store_snapshot_step(&mut self) -> (r: CommitStep)
        requires
            old(self)@.snapshot is Some,
        ensures
            (final(self)@, r@) == store_snapshot(old(self)@),
    {
        let sha = match &self.snapshot {
            Some(s) => s.clone(),
            None => String::new(),
        };
        let mut args = args4("stash", "store", "--quiet", "-m");
        let ghost d0 = args.deep_view();
        args.push("moon-ide commit safety snapshot \u{2014} recover with `git stash pop`".to_owned());
        let ghost d1 = args.deep_view();
        assert(d1 =~= d0.push(snapshot_label()));
        args.push(sha);
        assert(args.deep_view() =~= d1.push(old(self)@.snapshot.unwrap()));
        assert(args.deep_view() =~= seq!["stash"@, "store"@, "--quiet"@, "-m"@, snapshot_label(), old(self)@.snapshot.unwrap()]);
        self.stage = CommitStage::StoreSnapshot;
        CommitStep::Run { args, c_locale: false }
    }

    fn take_failure(&mut self) -> (e: MoonError)
        requires
            old(self)@.failure is Some,
        ensures
            e@ == old(self)@.failure.unwrap(),
            final(self)@ == old(self)@,
    {
        match &self.failure {
            Some(MoonError::InvalidArgument(m)) => MoonError::InvalidArgument(m.clone()),
            Some(MoonError::PermissionDenied(m)) => MoonError::PermissionDenied(m.clone()),
            Some(MoonError::Internal(m)) => MoonError::Internal(m.clone()),
            Some(MoonError::IoError(m)) => MoonError::IoError(m.clone()),
            None => MoonError::Internal(String::new()),
        }
    }

    fn after_recovery_calls(&mut self, run: GitRun) -> (r: CommitStep)
        requires
            flow_wf(old(self)@),
            recovering(old(self)@.stage),
        ensures
            (final(self)@, r@) == transition(old(self)@, run@),
    {
        let ok = match &run {
            GitRun::Exited { success, .. } => *success,
            GitRun::NotLaunched { .. } => false,
        };
        match self.stage {
            CommitStage::ReadTree => {
                if ok {
                    self.stage = CommitStage::CheckoutIndex;
                    CommitStep::Run { args: args3("checkout-index", "-a", "-f"), c_locale: false }
                } else {
                    self.store_snapshot_step()
                }
            },
            CommitStage::CheckoutIndex => {
                if ok {
                    let e = self.take_failure();
                    self.fail_with(e)
                } else {
                    self.store_snapshot_step()
                }
            },
            CommitStage::StoreSnapshot => {
                let e = self.take_failure();
                self.fail_with(e)
            },
            CommitStage::SwitchBack => match run {
                GitRun::NotLaunched { .. } => {
                    let e = self.take_failure();
                    self.finish_err(e)
                },
                GitRun::Exited { .. } => {
                    let branch = match &self.branch {
                        Some(b) => b.clone(),
                        None => String::new(),
                    };
                    self.stage = CommitStage::DeleteBranch;
                    CommitStep::Run { args: args3("branch", "-D", branch.as_str()), c_locale: false }
                },
            },
            _ => {
                let e = self.take_failure();
                self.finish_err(e)
            },
        }
    }

    fn after_head_calls(&mut self, run: GitRun) -> (r: CommitStep)
        requires
            flow_wf(old(self)@),
            old(self)@.stage == CommitStage::ShortSha || old(self)@.stage == CommitStage::HeadSubject,
        ensures
            (final(self)@, r@) == transition(old(self)@, run@),
    {
        let text = printed_or_empty_of(&run);
        if self.stage == CommitStage::HeadSubject {
            let sha = self.short_sha.clone();
            self.stage = CommitStage::Finished;
            return CommitStep::Done(Ok(GitCommitResult { short_sha: sha, summary: text }));
        }
        self.short_sha = text.clone();
        if self.amend && chars_of(self.message.as_str()).len() == 0 {
            self.stage = CommitStage::HeadSubject;
            CommitStep::Run { args: args3("log", "-1", "--pretty=%s"), c_locale: false }
        } else {
            let summary = commit_subject(self.message.as_str());
            self.stage = CommitStage::Finished;
            CommitStep::Done(Ok(GitCommitResult { short_sha: text, summary }))
        }
    }

    /// Take the outcome `run` of the outstanding call and say what to do
    /// next: see [`transition`].
    pub fn advance(&mut self, run: GitRun) -> (r: CommitStep)
        requires
            flow_wf(old(self)@),
            old(self)@.stage != CommitStage::Finished,
        ensures
            flow_wf(final(self)@),
            (final(self)@, r@) == transition(old(self)@, run@),
    {
        proof {
            lemma_transition_wf(self@, run@);
        }
        match self.stage {
            CommitStage::CheckRefFormat | CommitStage::PreviousRef | CommitStage::PreviousSha | CommitStage::CreateBranch => {
                self.after_branch_checks(run)
            },
            CommitStage::Stage | CommitStage::Snapshot | CommitStage::Commit => self.after_commit_calls(run),
            CommitStage::ShortSha | CommitStage::HeadSubject => self.after_head_calls(run),
            _ => self.after_recovery_calls(run),
        }
    }

    fn fail_with(&mut self, e: MoonError) -> (r: CommitStep)
        ensures
            (final(self)@, r@) == fail(old(self)@, e@),
    {
        if self.branch.is_some() {
            match &self.rollback {
                Some(t) => {
                    let args = args2("switch", t.as_str());
                    self.failure = Some(e);
                    self.stage = CommitStage::SwitchBack;
                    return CommitStep::Run { args, c_locale: false };
                },
                None => {},
            }
        }
        self.finish_err(e)
    }
}

} // verus!
