use moon_core::commit_flow::{CommitFlow, CommitStage, CommitStep};
use moon_core::git_run::GitRun;
use moon_core::error::MoonError;

fn ok(stdout: &str) -> GitRun {
    GitRun::Exited { success: true, code: 0, stdout: stdout.as_bytes().to_vec(), stderr: Vec::new() }
}

fn failed(code: i32, stdout: &str, stderr: &str) -> GitRun {
    GitRun::Exited { success: false, code, stdout: stdout.as_bytes().to_vec(), stderr: stderr.as_bytes().to_vec() }
}

fn expect_run(step: CommitStep, want: &[&str], c_locale: bool) {
    match step {
        CommitStep::Run { args, c_locale: c } => {
            assert_eq!(args, want.iter().map(|s| s.to_string()).collect::<Vec<_>>());
            assert_eq!(c, c_locale);
        }
        CommitStep::Done(r) => panic!("expected a git call, got {r:?}"),
    }
}

fn expect_done(step: CommitStep) -> Result<(String, String), MoonError> {
    match step {
        CommitStep::Done(r) => r.map(|c| (c.short_sha, c.summary)),
        CommitStep::Run { args, .. } => panic!("expected the end, got git {args:?}"),
    }
}

#[test]
fn commit_flow_plain_commit_reports_sha_and_first_line() {
    let (mut flow, step) = CommitFlow::start_commit("feat: x\n\nlonger body", false);
    expect_run(step, &["add", "-A"], false);
    expect_run(flow.advance(ok("")), &["stash", "create"], false);
    expect_run(flow.advance(ok("0123abcd\n")), &["commit", "-m", "feat: x\n\nlonger body"], true);
    expect_run(flow.advance(ok("")), &["rev-parse", "--short", "HEAD"], false);
    let r = expect_done(flow.advance(ok("abc1234\n")));
    assert_eq!(r.unwrap(), ("abc1234".to_string(), "feat: x".to_string()));
    assert_eq!(flow.stage(), CommitStage::Finished);
}

#[test]
fn commit_flow_amend_without_message_echoes_head_subject() {
    let (mut flow, step) = CommitFlow::start_commit("", true);
    expect_run(step, &["add", "-A"], false);
    expect_run(flow.advance(ok("")), &["stash", "create"], false);
    expect_run(flow.advance(ok("")), &["commit", "--amend", "--no-edit"], true);
    expect_run(flow.advance(ok("")), &["rev-parse", "--short", "HEAD"], false);
    expect_run(flow.advance(ok("abc1234\n")), &["log", "-1", "--pretty=%s"], false);
    let r = expect_done(flow.advance(ok("  previous subject \n")));
    assert_eq!(r.unwrap(), ("abc1234".to_string(), "previous subject".to_string()));
}

#[test]
fn commit_flow_amend_with_message_rewrites_it() {
    let (mut flow, _) = CommitFlow::start_commit("new words", true);
    flow.advance(ok(""));
    expect_run(flow.advance(ok("")), &["commit", "--amend", "-m", "new words"], true);
    expect_run(flow.advance(ok("")), &["rev-parse", "--short", "HEAD"], false);
    let r = expect_done(flow.advance(GitRun::NotLaunched { error: "gone".to_string() }));
    assert_eq!(r.unwrap(), (String::new(), "new words".to_string()));
}

#[test]
fn commit_flow_failed_commit_restores_snapshot_then_reports() {
    let (mut flow, _) = CommitFlow::start_commit("msg", false);
    flow.advance(ok(""));
    flow.advance(ok("  5a5a5a\n"));
    let step = flow.advance(failed(1, "On branch main\nnothing to commit, working tree clean\n", ""));
    expect_run(step, &["read-tree", "--reset", "5a5a5a"], false);
    expect_run(flow.advance(ok("")), &["checkout-index", "-a", "-f"], false);
    match expect_done(flow.advance(ok(""))) {
        Err(MoonError::InvalidArgument(m)) => assert_eq!(m, "nothing to commit"),
        other => panic!("unexpected {other:?}"),
    }
}

#[test]
fn commit_flow_unrestorable_snapshot_is_stored() {
    let (mut flow, _) = CommitFlow::start_commit("msg", false);
    flow.advance(ok(""));
    flow.advance(ok("5a5a5a\n"));
    flow.advance(failed(1, "", "  hook crashed \n"));
    let step = flow.advance(failed(128, "", "fatal"));
    expect_run(
        step,
        &["stash", "store", "--quiet", "-m", "moon-ide commit safety snapshot \u{2014} recover with `git stash pop`", "5a5a5a"],
        false,
    );
    match expect_done(flow.advance(ok(""))) {
        Err(MoonError::IoError(m)) => assert_eq!(m, "git commit exited 1: hook crashed"),
        other => panic!("unexpected {other:?}"),
    }
}

#[test]
fn commit_flow_without_snapshot_reports_at_once() {
    let (mut flow, _) = CommitFlow::start_commit("msg", false);
    flow.advance(ok(""));
    flow.advance(ok("\n"));
    match expect_done(flow.advance(failed(-1, " only stdout ", ""))) {
        Err(MoonError::IoError(m)) => assert_eq!(m, "git commit exited -1: only stdout"),
        other => panic!("unexpected {other:?}"),
    }
}

#[test]
fn commit_flow_stage_failures_read_as_git_add_errors() {
    let (mut flow, _) = CommitFlow::start_commit("msg", false);
    match expect_done(flow.advance(GitRun::NotLaunched { error: "no git".to_string() })) {
        Err(MoonError::IoError(m)) => assert_eq!(m, "git add failed to launch: no git"),
        other => panic!("unexpected {other:?}"),
    }
    let (mut flow, _) = CommitFlow::start_commit("msg", false);
    match expect_done(flow.advance(failed(128, "", "fatal: not a git repository\n"))) {
        Err(MoonError::IoError(m)) => assert_eq!(m, "git add exited 128: fatal: not a git repository"),
        other => panic!("unexpected {other:?}"),
    }
}

#[test]
fn commit_flow_new_branch_refuses_empty_and_invalid_names() {
    let (flow, step) = CommitFlow::start_commit_on_new_branch("", "msg");
    assert_eq!(flow.stage(), CommitStage::Finished);
    match expect_done(step) {
        Err(MoonError::InvalidArgument(m)) => assert_eq!(m, "branch name is empty"),
        other => panic!("unexpected {other:?}"),
    }
    let (mut flow, step) = CommitFlow::start_commit_on_new_branch("bad name", "msg");
    expect_run(step, &["check-ref-format", "--branch", "bad name"], false);
    match expect_done(flow.advance(failed(1, "", ""))) {
        Err(MoonError::InvalidArgument(m)) => assert_eq!(m, "\"bad name\" is not a valid git branch name"),
        other => panic!("unexpected {other:?}"),
    }
    let (mut flow, _) = CommitFlow::start_commit_on_new_branch("a..b", "msg");
    match expect_done(flow.advance(failed(1, "", "fatal: 'a..b' is not a valid branch name\n"))) {
        Err(MoonError::InvalidArgument(m)) => assert_eq!(m, "\"a..b\": fatal: 'a..b' is not a valid branch name"),
        other => panic!("unexpected {other:?}"),
    }
}

#[test]
fn commit_flow_new_branch_commits_on_the_new_branch() {
    let (mut flow, _) = CommitFlow::start_commit_on_new_branch("feat/x", "add x");
    expect_run(flow.advance(ok("")), &["symbolic-ref", "--quiet", "--short", "HEAD"], false);
    expect_run(flow.advance(ok("main\n")), &["rev-parse", "HEAD"], false);
    expect_run(flow.advance(ok("0123456789abcdef0123456789abcdef01234567\n")), &["switch", "-c", "feat/x"], false);
    expect_run(flow.advance(ok("")), &["add", "-A"], false);
    expect_run(flow.advance(ok("")), &["stash", "create"], false);
    expect_run(flow.advance(ok("")), &["commit", "-m", "add x"], true);
    expect_run(flow.advance(ok("")), &["rev-parse", "--short", "HEAD"], false);
    assert_eq!(expect_done(flow.advance(ok("fff0001\n"))).unwrap(), ("fff0001".to_string(), "add x".to_string()));
}

#[test]
fn commit_flow_new_branch_rolls_back_on_failed_commit() {
    let (mut flow, _) = CommitFlow::start_commit_on_new_branch("feat/x", "add x");
    flow.advance(ok(""));
    flow.advance(failed(1, "", "fatal: ref HEAD is not a symbolic ref"));
    expect_run(flow.advance(ok("0123456789abcdef0123456789abcdef01234567\n")), &["switch", "-c", "feat/x"], false);
    expect_run(flow.advance(ok("")), &["add", "-A"], false);
    expect_run(flow.advance(ok("")), &["stash", "create"], false);
    expect_run(flow.advance(ok("")), &["commit", "-m", "add x"], true);
    let step = flow.advance(failed(1, "nothing to commit, working tree clean", ""));
    expect_run(step, &["switch", "0123456789abcdef0123456789abcdef01234567"], false);
    expect_run(flow.advance(failed(1, "", "")), &["branch", "-D", "feat/x"], false);
    match expect_done(flow.advance(ok(""))) {
        Err(MoonError::InvalidArgument(m)) => assert_eq!(m, "nothing to commit"),
        other => panic!("unexpected {other:?}"),
    }
}

#[test]
fn commit_flow_new_branch_switch_failure_is_reported() {
    let (mut flow, _) = CommitFlow::start_commit_on_new_branch("dup", "m");
    flow.advance(ok(""));
    flow.advance(ok("main"));
    flow.advance(ok("abc"));
    match expect_done(flow.advance(failed(128, "", " fatal: a branch named 'dup' already exists \n"))) {
        Err(MoonError::IoError(m)) => assert_eq!(m, "git switch -c exited 128: fatal: a branch named 'dup' already exists"),
        other => panic!("unexpected {other:?}"),
    }
}

#[test]
fn commit_flow_rollback_without_a_head_reports_directly() {
    let (mut flow, _) = CommitFlow::start_commit_on_new_branch("first", "m");
    flow.advance(ok(""));
    flow.advance(failed(1, "", ""));
    flow.advance(failed(128, "", "unknown revision"));
    flow.advance(ok(""));
    match expect_done(flow.advance(failed(1, "", "boom"))) {
        Err(MoonError::IoError(m)) => assert_eq!(m, "git add exited 1: boom"),
        other => panic!("unexpected {other:?}"),
    }
}
