use moon_core::branch_info::{BranchInfoFlow, BranchInfoStep, BranchStage, GitBranchInfo};
use moon_core::git_run::GitRun;

fn ok(stdout: &str) -> GitRun {
    GitRun::Exited { success: true, code: 0, stdout: stdout.as_bytes().to_vec(), stderr: Vec::new() }
}

fn failed() -> GitRun {
    GitRun::Exited { success: false, code: 1, stdout: Vec::new(), stderr: b"fatal".to_vec() }
}

fn expect_run(step: BranchInfoStep, want: &[&str]) {
    match step {
        BranchInfoStep::Run { args } => assert_eq!(args, want.iter().map(|s| s.to_string()).collect::<Vec<_>>()),
        BranchInfoStep::Done(info) => panic!("expected a git call, got {info:?}"),
    }
}

fn expect_done(step: BranchInfoStep) -> GitBranchInfo {
    match step {
        BranchInfoStep::Done(info) => info,
        BranchInfoStep::Run { args } => panic!("expected the end, got git {args:?}"),
    }
}

#[test]
fn branch_info_feature_branch_on_github() {
    let (mut flow, step) = BranchInfoFlow::start();
    expect_run(step, &["symbolic-ref", "--quiet", "--short", "HEAD"]);
    expect_run(flow.advance(ok("feat/x\n")), &["rev-parse", "--short", "HEAD"]);
    expect_run(flow.advance(ok("abc1234\n")), &["rev-parse", "--abbrev-ref", "--symbolic-full-name", "@{u}"]);
    expect_run(flow.advance(ok("origin/feat/x\n")), &["rev-list", "--count", "--left-right", "HEAD...@{u}"]);
    expect_run(flow.advance(ok("2\t3\n")), &["config", "--get", "remote.origin.url"]);
    expect_run(
        flow.advance(ok("git@github.com:moon/ide.git\n")),
        &["symbolic-ref", "--short", "--quiet", "refs/remotes/origin/HEAD"],
    );
    expect_run(flow.advance(ok("origin/main\n")), &["rev-list", "--count", "HEAD..origin/main"]);
    let info = expect_done(flow.advance(ok("5\n")));
    assert_eq!(info.name.as_deref(), Some("feat/x"));
    assert_eq!(info.head_short_sha.as_deref(), Some("abc1234"));
    assert!(info.has_upstream);
    assert_eq!((info.ahead, info.behind), (2, 3));
    assert_eq!(info.pr_url.as_deref(), Some("https://github.com/moon/ide/pull/new/feat/x"));
    assert_eq!(info.default_branch_remote_ref.as_deref(), Some("origin/main"));
    assert_eq!(info.default_branch_behind, 5);
    assert_eq!(flow.stage(), BranchStage::Finished);
}

#[test]
fn branch_info_on_default_branch_skips_behind_count() {
    let (mut flow, _) = BranchInfoFlow::start();
    flow.advance(ok("main\n"));
    flow.advance(ok("abc1234\n"));
    flow.advance(failed());
    flow.advance(failed());
    flow.advance(ok("https://gitlab.com/moon/ide.git\n"));
    flow.advance(ok("\n"));
    let info = expect_done(flow.advance(ok("origin/main\n")));
    assert_eq!(info.name.as_deref(), Some("main"));
    assert!(!info.has_upstream);
    assert_eq!((info.ahead, info.behind), (0, 0));
    assert_eq!(info.pr_url, None);
    assert_eq!(info.default_branch_remote_ref.as_deref(), Some("origin/main"));
    assert_eq!(info.default_branch_behind, 0);
}

#[test]
fn branch_info_detached_head_falls_back_to_origin_master() {
    let (mut flow, _) = BranchInfoFlow::start();
    flow.advance(failed());
    flow.advance(ok("abc1234\n"));
    flow.advance(failed());
    flow.advance(ok("garbage"));
    expect_run(flow.advance(failed()), &["config", "--get", "remote.upstream.url"]);
    expect_run(
        flow.advance(ok("git@github.com:moon/ide.git\n")),
        &["symbolic-ref", "--short", "--quiet", "refs/remotes/origin/HEAD"],
    );
    expect_run(flow.advance(failed()), &["rev-parse", "--verify", "--quiet", "origin/main"]);
    expect_run(flow.advance(failed()), &["rev-parse", "--verify", "--quiet", "origin/master"]);
    let info = expect_done(flow.advance(ok("")));
    assert_eq!(info.name, None);
    assert_eq!((info.ahead, info.behind), (0, 0));
    assert_eq!(info.pr_url, None);
    assert_eq!(info.default_branch_remote_ref.as_deref(), Some("origin/master"));
    assert_eq!(info.default_branch_behind, 0);
}

#[test]
fn branch_info_github_upstream_behind_custom_origin() {
    let (mut flow, _) = BranchInfoFlow::start();
    flow.advance(ok("hot fix\n"));
    flow.advance(ok("abc1234\n"));
    flow.advance(ok("origin/hot fix\n"));
    flow.advance(ok("0 0\n"));
    flow.advance(ok("https://example.com/moon/ide.git\n"));
    flow.advance(ok("https://github.com/moon/ide\n"));
    flow.advance(failed());
    flow.advance(failed());
    let info = expect_done(flow.advance(failed()));
    assert_eq!(info.pr_url.as_deref(), Some("https://github.com/moon/ide/pull/new/hot%20fix"));
    assert_eq!(info.default_branch_remote_ref, None);
}
