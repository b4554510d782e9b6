//! What the SCM panel shows about the checked-out branch, gathered by a
//! fixed sequence of read-only `git` calls: the branch name and short
//! head, the upstream and how far ahead and behind it is, the GitHub
//! "open a pull request" link, and the repository's default branch on
//! `origin` with how far behind it HEAD is. Each call's outcome decides
//! the next call; running git is the caller's.
use vstd::prelude::*;
use vstd::utf8::{decode_utf8, encode_utf8, valid_utf8};
use crate::blame::lossy_utf8;
use crate::git::{
    ahead_behind_spec, count_spec, encode_bytes, github_remote_spec, local_branch_of, default_branch_behind_needed,
    normalize_remote_url, parse_ahead_behind, parse_count, pr_create_url,
};
use crate::git_run::{args2, args3, args4, lossy_trimmed, printed_name, printed_name_of, succeeded, GitRun, GitRunView};
use crate::lsp::translate::opt_view;
use crate::text::{chars_of, push_str_chars, string_from_chars, trim, utf8_str};

verus! {

/// What the SCM panel shows about the checked-out branch.
#[derive(Debug)]
pub struct GitBranchInfo {
    /// The checked-out branch; none on a detached head.
    pub name: Option<String>,
    /// The short name of HEAD; none before the first commit.
    pub head_short_sha: Option<String>,
    /// Whether the branch has an upstream.
    pub has_upstream: bool,
    /// Commits HEAD has that its upstream lacks.
    pub ahead: u32,
    /// Commits the upstream has that HEAD lacks.
    pub behind: u32,
    /// The GitHub page that opens a pull request for the branch.
    pub pr_url: Option<String>,
    /// The default branch on `origin` (`origin/main`).
    pub default_branch_remote_ref: Option<String>,
    /// Commits the default branch has that HEAD lacks.
    pub default_branch_behind: u32,
}

/// A [`GitBranchInfo`] as a value.
pub ghost struct BranchInfoView {
    pub name: Option<Seq<char>>,
    pub head_short_sha: Option<Seq<char>>,
    pub has_upstream: bool,
    pub ahead: u32,
    pub behind: u32,
    pub pr_url: Option<Seq<char>>,
    pub default_branch_remote_ref: Option<Seq<char>>,
    pub default_branch_behind: u32,
}

impl View for GitBranchInfo {
    type V = BranchInfoView;

    open spec fn view(&self) -> BranchInfoView {
        BranchInfoView {
            name: opt_view(self.name),
            head_short_sha: opt_view(self.head_short_sha),
            has_upstream: self.has_upstream,
            ahead: self.ahead,
            behind: self.behind,
            pr_url: opt_view(self.pr_url),
            default_branch_remote_ref: opt_view(self.default_branch_remote_ref),
            default_branch_behind: self.default_branch_behind,
        }
    }
}

/// The call the gathering waits on.
#[derive(Clone, Copy, Debug, PartialEq, Eq, Structural)]
pub enum BranchStage {
    /// `git symbolic-ref --quiet --short HEAD`.
    HeadName,
    /// `git rev-parse --short HEAD`.
    ShortSha,
    /// `git rev-parse --abbrev-ref --symbolic-full-name @{u}`.
    Upstream,
    /// `git rev-list --count --left-right HEAD...@{u}`.
    AheadBehind,
    /// `git config --get remote.origin.url`.
    OriginUrl,
    /// `git config --get remote.upstream.url`.
    UpstreamUrl,
    /// `git symbolic-ref --short --quiet refs/remotes/origin/HEAD`.
    DefaultSymbolic,
    /// `git rev-parse --verify --quiet origin/main`.
    DefaultMain,
    /// `git rev-parse --verify --quiet origin/master`.
    DefaultMaster,
    /// `git rev-list --count HEAD..<default>`.
    CountBehind,
    /// The info has been reported.
    Finished,
}

/// Where the gathering stands between two calls.
pub struct BranchInfoFlow {
    info: GitBranchInfo,
    stage: BranchStage,
}

/// A [`BranchInfoFlow`] as a value: what is known so far, and the
/// outstanding call.
pub ghost struct BranchFlowView {
    pub info: BranchInfoView,
    pub stage: BranchStage,
}

impl View for BranchInfoFlow {
    type V = BranchFlowView;

    closed spec fn view(&self) -> BranchFlowView {
        BranchFlowView { info: self.info@, stage: self.stage }
    }
}

/// What to do next.
pub enum BranchInfoStep {
    /// Run `git -C <root> <args>` and hand its outcome to
    /// [`BranchInfoFlow::advance`].
    Run { args: Vec<String> },
    /// The gathered info.
    Done(GitBranchInfo),
}

/// A [`BranchInfoStep`] as a value.
pub ghost enum BranchStepView {
    Run(Seq<Seq<char>>),
    Done(BranchInfoView),
}

impl View for BranchInfoStep {
    type V = BranchStepView;

    open spec fn view(&self) -> BranchStepView {
        match self {
            BranchInfoStep::Run { args } => BranchStepView::Run(args.deep_view()),
            BranchInfoStep::Done(info) => BranchStepView::Done(info@),
        }
    }
}

/// What a successful call printed, when it is UTF-8.
pub open spec fn utf8_stdout(run: GitRunView) -> Option<Seq<char>> {
    match run {
        GitRunView::Exited(success, _, out, _) => if success && valid_utf8(out) {
            Some(decode_utf8(out))
        } else {
            None
        },
        _ => None,
    }
}

/// The value `git config --get` printed: its text, trimmed, when the
/// call succeeded and it is not empty.
pub open spec fn config_value(run: GitRunView) -> Option<Seq<char>> {
    match run {
        GitRunView::Exited(true, _, out, _) => if trim(lossy_utf8(out)).len() > 0 {
            Some(trim(lossy_utf8(out)))
        } else {
            None
        },
        _ => None,
    }
}

/// The GitHub web URL of the remote `git config --get` printed, when it
/// is a GitHub remote.
pub open spec fn web_url_of(run: GitRunView) -> Option<Seq<char>> {
    match config_value(run) {
        Some(u) => github_remote_spec(u),
        None => None,
    }
}

/// The "open a pull request" link: with a GitHub web URL and a branch.
pub open spec fn pr_url_spec(web: Option<Seq<char>>, name: Option<Seq<char>>) -> Option<Seq<char>> {
    match (web, name) {
        (Some(base), Some(branch)) => Some(base + "/pull/new/"@ + encode_bytes(encode_utf8(branch))),
        _ => None,
    }
}

/// The arguments that ask for the symbolic default branch of `origin`.
pub open spec fn default_symbolic_args() -> Seq<Seq<char>> {
    seq!["symbolic-ref"@, "--short"@, "--quiet"@, "refs/remotes/origin/HEAD"@]
}

/// The gathering ends with what `v` knows.
pub open spec fn branch_finish(v: BranchFlowView) -> (BranchFlowView, BranchStepView) {
    (BranchFlowView { stage: BranchStage::Finished, ..v }, BranchStepView::Done(v.info))
}

/// The default branch is `default`: count how far behind it HEAD is,
/// unless HEAD is not a branch, there is no default, or HEAD is the
/// default branch itself (then it is behind by nothing).
pub open spec fn with_default(v: BranchFlowView, default: Option<Seq<char>>) -> (BranchFlowView, BranchStepView) {
    let v2 = BranchFlowView { info: BranchInfoView { default_branch_remote_ref: default, ..v.info }, ..v };
    match (default, v.info.name) {
        (Some(r), Some(n)) => if local_branch_of(r) != n {
            (
                BranchFlowView { stage: BranchStage::CountBehind, ..v2 },
                BranchStepView::Run(seq!["rev-list"@, "--count"@, "HEAD.."@ + r]),
            )
        } else {
            branch_finish(v2)
        },
        _ => branch_finish(v2),
    }
}

/// The next state and step of `v` once its outstanding call ended as
/// `run`.
pub open spec fn branch_transition(v: BranchFlowView, run: GitRunView) -> (BranchFlowView, BranchStepView) {
    let info = v.info;
    match v.stage {
        BranchStage::HeadName => (
            BranchFlowView {
                info: BranchInfoView { name: printed_name(run), ..info },
                stage: BranchStage::ShortSha,
            },
            BranchStepView::Run(seq!["rev-parse"@, "--short"@, "HEAD"@]),
        ),
        BranchStage::ShortSha => (
            BranchFlowView {
                info: BranchInfoView { head_short_sha: printed_name(run), ..info },
                stage: BranchStage::Upstream,
            },
            BranchStepView::Run(seq!["rev-parse"@, "--abbrev-ref"@, "--symbolic-full-name"@, "@{u}"@]),
        ),
        BranchStage::Upstream => (
            BranchFlowView {
                info: BranchInfoView { has_upstream: succeeded(run), ..info },
                stage: BranchStage::AheadBehind,
            },
            BranchStepView::Run(seq!["rev-list"@, "--count"@, "--left-right"@, "HEAD...@{u}"@]),
        ),
        BranchStage::AheadBehind => {
            let counts = match utf8_stdout(run) {
                Some(t) => ahead_behind_spec(t),
                None => (0u32, 0u32),
            };
            (
                BranchFlowView {
                    info: BranchInfoView { ahead: counts.0, behind: counts.1, ..info },
                    stage: BranchStage::OriginUrl,
                },
                BranchStepView::Run(seq!["config"@, "--get"@, "remote.origin.url"@]),
            )
        },
        BranchStage::OriginUrl => match web_url_of(run) {
            Some(web) => (
                BranchFlowView {
                    info: BranchInfoView { pr_url: pr_url_spec(Some(web), info.name), ..info },
                    stage: BranchStage::DefaultSymbolic,
                },
                BranchStepView::Run(default_symbolic_args()),
            ),
            None => (
                BranchFlowView { stage: BranchStage::UpstreamUrl, ..v },
                BranchStepView::Run(seq!["config"@, "--get"@, "remote.upstream.url"@]),
            ),
        },
        BranchStage::UpstreamUrl => (
            BranchFlowView {
                info: BranchInfoView { pr_url: pr_url_spec(web_url_of(run), info.name), ..info },
                stage: BranchStage::DefaultSymbolic,
            },
            BranchStepView::Run(default_symbolic_args()),
        ),
        BranchStage::DefaultSymbolic => match printed_name(run) {
            Some(r) => with_default(v, Some(r)),
            None => (
                BranchFlowView { stage: BranchStage::DefaultMain, ..v },
                BranchStepView::Run(seq!["rev-parse"@, "--verify"@, "--quiet"@, "origin/main"@]),
            ),
        },
        BranchStage::DefaultMain => if succeeded(run) {
            with_default(v, Some("origin/main"@))
        } else {
            (
                BranchFlowView { stage: BranchStage::DefaultMaster, ..v },
                BranchStepView::Run(seq!["rev-parse"@, "--verify"@, "--quiet"@, "origin/master"@]),
            )
        },
        BranchStage::DefaultMaster => if succeeded(run) {
            with_default(v, Some("origin/master"@))
        } else {
            with_default(v, None)
        },
        BranchStage::CountBehind => {
            let behind = match utf8_stdout(run) {
                Some(t) => count_spec(t),
                None => 0u32,
            };
            branch_finish(BranchFlowView { info: BranchInfoView { default_branch_behind: behind, ..info }, ..v })
        },
        BranchStage::Finished => (v, BranchStepView::Done(info)),
    }
}

/// The order in which the gathering passes its stages.
pub open spec fn branch_stage_rank(stage: BranchStage) -> int {
    match stage {
        BranchStage::HeadName => 0,
        BranchStage::ShortSha => 1,
        BranchStage::Upstream => 2,
        BranchStage::AheadBehind => 3,
        BranchStage::OriginUrl => 4,
        BranchStage::UpstreamUrl => 5,
        BranchStage::DefaultSymbolic => 6,
        BranchStage::DefaultMain => 7,
        BranchStage::DefaultMaster => 8,
        BranchStage::CountBehind => 9,
        BranchStage::Finished => 10,
    }
}

/// Every call moves the gathering forward, so it ends after a bounded
/// number of calls, whatever git answers; it ends exactly when it
/// reports.
pub proof fn law_gathering_moves_forward(v: BranchFlowView, run: GitRunView)
    requires
        v.stage != BranchStage::Finished,
    ensures
        branch_stage_rank(branch_transition(v, run).0.stage) > branch_stage_rank(v.stage),
        branch_transition(v, run).1 is Done <==> branch_transition(v, run).0.stage == BranchStage::Finished,
{
}

/// Gathering branch info only reads the repository: every call is a
/// `symbolic-ref`, `rev-parse` or `rev-list` query or a `config --get`.
pub proof fn law_gathering_only_reads(v: BranchFlowView, run: GitRunView)
    requires
        v.stage != BranchStage::Finished,
    ensures
        branch_transition(v, run).1 matches BranchStepView::Run(args) ==> args.len() >= 2 && (args[0]
            == "symbolic-ref"@ || args[0] == "rev-parse"@ || args[0] == "rev-list"@ || (args[0] == "config"@
            && args[1] == "--get"@)),
{
}

/// How far HEAD is behind the default branch is asked only for a
/// checked-out branch other than the default branch itself.
pub proof fn law_no_behind_count_on_default_branch(v: BranchFlowView, run: GitRunView)
    requires
        v.stage != BranchStage::Finished,
    ensures
        branch_transition(v, run).0.stage == BranchStage::CountBehind ==> (branch_transition(
            v,
            run,
        ).0.info.default_branch_remote_ref matches Some(r) && v.info.name matches Some(n) && local_branch_of(r)
            != n),
{
}

/// The pull-request link is set only from a remote's URL, and only for
/// a checked-out branch.
pub proof fn law_pr_link_needs_branch(v: BranchFlowView, run: GitRunView)
    requires
        v.stage != BranchStage::Finished,
    ensures
        (branch_transition(v, run).0.info.pr_url is Some && branch_transition(v, run).0.info.pr_url
            != v.info.pr_url) ==> (branch_transition(v, run).0.info.name is Some && (v.stage == BranchStage::OriginUrl
            || v.stage == BranchStage::UpstreamUrl)),
{
}

fn clone_opt(o: &Option<String>) -> (r: Option<String>)
    ensures
        opt_view(r) == opt_view(*o),
{
    match o {
        Some(s) => Some(s.clone()),
        None => None,
    }
}

fn utf8_stdout_of(run: &GitRun) -> (r: Option<String>)
    ensures
        opt_view(r) == utf8_stdout(run@),
{
    match run {
        GitRun::Exited { success, stdout, .. } => {
            if !*success {
                return None;
            }
            match utf8_str(stdout.as_slice()) {
                Some(s) => Some(s.to_owned()),
                None => None,
            }
        },
        GitRun::NotLaunched { .. } => None,
    }
}

/// The GitHub web URL of the remote whose URL `git config --get`
/// printed, when it is a GitHub remote.
pub fn web_url_from(run: &GitRun) -> (r: Option<String>)
    ensures
        opt_view(r) == web_url_of(run@),
{
    match run {
        GitRun::Exited { success, stdout, .. } => {
            if !*success {
                return None;
            }
            let t = lossy_trimmed(stdout.as_slice());
            if chars_of(t.as_str()).len() == 0 {
                None
            } else {
                normalize_remote_url(t.as_str())
            }
        },
        GitRun::NotLaunched { .. } => None,
    }
}

fn pr_url_for(web: &Option<String>, name: &Option<String>) -> (r: Option<String>)
    ensures
        opt_view(r) == pr_url_spec(opt_view(*web), opt_view(*name)),
{
    match (web, name) {
        (Some(base), Some(branch)) => Some(pr_create_url(base.as_str(), branch.as_str())),
        _ => None,
    }
}

impl GitBranchInfo {
    fn copy(&self) -> (r: GitBranchInfo)
        ensures
            r@ == self@,
    {
        GitBranchInfo {
            name: clone_opt(&self.name),
            head_short_sha: clone_opt(&self.head_short_sha),
            has_upstream: self.has_upstream,
            ahead: self.ahead,
            behind: self.behind,
            pr_url: clone_opt(&self.pr_url),
            default_branch_remote_ref: clone_opt(&self.default_branch_remote_ref),
            default_branch_behind: self.default_branch_behind,
        }
    }
}

impl BranchInfoFlow {
    /// A new gathering; the first step asks for the branch name.
    pub fn start() -> (r: (BranchInfoFlow, BranchInfoStep))
        ensures
            r.0@ == (BranchFlowView {
                info: BranchInfoView {
                    name: None,
                    head_short_sha: None,
                    has_upstream: false,
                    ahead: 0,
                    behind: 0,
                    pr_url: None,
                    default_branch_remote_ref: None,
                    default_branch_behind: 0,
                },
                stage: BranchStage::HeadName,
            }),
            r.1@ == BranchStepView::Run(seq!["symbolic-ref"@, "--quiet"@, "--short"@, "HEAD"@]),
    {
        let info = GitBranchInfo {
            name: None,
            head_short_sha: None,
            has_upstream: false,
            ahead: 0,
            behind: 0,
            pr_url: None,
            default_branch_remote_ref: None,
            default_branch_behind: 0,
        };
        (
            BranchInfoFlow { info, stage: BranchStage::HeadName },
            BranchInfoStep::Run { args: args4("symbolic-ref", "--quiet", "--short", "HEAD") },
        )
    }

    /// The outstanding call.
    pub fn stage(&self) -> (r: BranchStage)
        ensures
            r == self@.stage,
    {
        self.stage
    }

    fn finish(&mut self) -> (r: BranchInfoStep)
        ensures
            (final(self)@, r@) == branch_finish(old(self)@),
    {
        self.stage = BranchStage::Finished;
        BranchInfoStep::Done(self.info.copy())
    }

    fn settle_default(&mut self, default: Option<String>) -> (r: BranchInfoStep)
        ensures
            (final(self)@, r@) == with_default(old(self)@, opt_view(default)),
    {
        let needed = match (&default, &self.info.name) {
            (Some(d), Some(n)) => default_branch_behind_needed(Some(d.as_str()), Some(n.as_str())),
            _ => false,
        };
        let range = match &default {
            Some(d) => {
                let mut v = chars_of("HEAD..");
                push_str_chars(&mut v, d.as_str());
                string_from_chars(v.as_slice())
            },
            None => String::new(),
        };
        self.info.default_branch_remote_ref = default;
        if needed {
            self.stage = BranchStage::CountBehind;
            BranchInfoStep::Run { args: args3("rev-list", "--count", range.as_str()) }
        } else {
            self.finish()
        }
    }

    /// Take the outcome `run` of the outstanding call and say what to do
    /// next: see [`branch_transition`].
    pub fn advance(&mut self, run: GitRun) -> (r: BranchInfoStep)
        requires
            old(self)@.stage != BranchStage::Finished,
        ensures
            (final(self)@, r@) == branch_transition(old(self)@, run@),
    {
        match self.stage {
            BranchStage::HeadName => {
                self.info.name = printed_name_of(&run);
                self.stage = BranchStage::ShortSha;
                BranchInfoStep::Run { args: args3("rev-parse", "--short", "HEAD") }
            },
            BranchStage::ShortSha => {
                self.info.head_short_sha = printed_name_of(&run);
                self.stage = BranchStage::Upstream;
                BranchInfoStep::Run { args: args4("rev-parse", "--abbrev-ref", "--symbolic-full-name", "@{u}") }
            },
            BranchStage::Upstream => {
                self.info.has_upstream = match &run {
                    GitRun::Exited { success, .. } => *success,
                    GitRun::NotLaunched { .. } => false,
                };
                self.stage = BranchStage::AheadBehind;
                BranchInfoStep::Run { args: args4("rev-list", "--count", "--left-right", "HEAD...@{u}") }
            },
            BranchStage::AheadBehind => {
                let counts = match utf8_stdout_of(&run) {
                    Some(t) => parse_ahead_behind(t.as_str()),
                    None => (0u32, 0u32),
                };
                self.info.ahead = counts.0;
                self.info.behind = counts.1;
                self.stage = BranchStage::OriginUrl;
                BranchInfoStep::Run { args: args3("config", "--get", "remote.origin.url") }
            },
            BranchStage::OriginUrl => {
                let web = web_url_from(&run);
                if web.is_some() {
                    self.info.pr_url = pr_url_for(&web, &self.info.name);
                    self.stage = BranchStage::DefaultSymbolic;
                    BranchInfoStep::Run { args: args4("symbolic-ref", "--short", "--quiet", "refs/remotes/origin/HEAD") }
                } else {
                    self.stage = BranchStage::UpstreamUrl;
                    BranchInfoStep::Run { args: args3("config", "--get", "remote.upstream.url") }
                }
            },
            BranchStage::UpstreamUrl => {
                let web = web_url_from(&run);
                self.info.pr_url = pr_url_for(&web, &self.info.name);
                self.stage = BranchStage::DefaultSymbolic;
                BranchInfoStep::Run { args: args4("symbolic-ref", "--short", "--quiet", "refs/remotes/origin/HEAD") }
            },
            BranchStage::DefaultSymbolic => {
                let r = printed_name_of(&run);
                if r.is_some() {
                    self.settle_default(r)
                } else {
                    self.stage = BranchStage::DefaultMain;
                    BranchInfoStep::Run { args: args4("rev-parse", "--verify", "--quiet", "origin/main") }
                }
            },
            BranchStage::DefaultMain => {
                if run_succeeded(&run) {
                    self.settle_default(Some("origin/main".to_owned()))
                } else {
                    self.stage = BranchStage::DefaultMaster;
                    BranchInfoStep::Run { args: args4("rev-parse", "--verify", "--quiet", "origin/master") }
                }
            },
            BranchStage::DefaultMaster => {
                if run_succeeded(&run) {
                    self.settle_default(Some("origin/master".to_owned()))
                } else {
                    self.settle_default(None)
                }
            },
            _ => {
                self.info.default_branch_behind = match utf8_stdout_of(&run) {
                    Some(t) => parse_count(t.as_str()),
                    None => 0u32,
                };
                self.finish()
            },
        }
    }
}

fn run_succeeded(run: &GitRun) -> (r: bool)
    ensures
        r == succeeded(run@),
{
    match run {
        GitRun::Exited { success, .. } => *success,
        GitRun::NotLaunched { .. } => false,
    }
}

} // verus!
