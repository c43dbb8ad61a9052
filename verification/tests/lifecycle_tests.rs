use kak_tree_sitter::boot::BootAction;
use kak_tree_sitter::boot::BootEvent;
use kak_tree_sitter::boot::BootPhase;
use kak_tree_sitter::boot::Bootstrap;
use kak_tree_sitter::paths::pid_file_path;
use kak_tree_sitter::paths::resolve_runtime_dir;
use kak_tree_sitter::paths::socket_path;
use kak_tree_sitter::paths::stderr_path;
use kak_tree_sitter::paths::stdout_path;

#[test]
fn resolver_prefers_runtime_dir() {
    let r = resolve_runtime_dir(Some("/run/user/1000".to_string()), Some("/tmp".to_string()));
    assert_eq!(r, Some("/run/user/1000/kak-tree-sitter".to_string()));
}

#[test]
fn resolver_falls_back_to_tmp_dir() {
    let r = resolve_runtime_dir(None, Some("/tmp".to_string()));
    assert_eq!(r, Some("/tmp/kak-tree-sitter".to_string()));
}

#[test]
fn resolver_fails_when_nothing_resolves() {
    assert_eq!(resolve_runtime_dir(None, None), None);
}

#[test]
fn runtime_paths_sit_inside_the_directory() {
    assert_eq!(socket_path("/run/user/1000/app"), "/run/user/1000/app/socket".to_string());
    assert_eq!(pid_file_path("/run/user/1000/app"), "/run/user/1000/app/pid".to_string());
    assert_eq!(stdout_path("/run/user/1000/app"), "/run/user/1000/app/stdout.txt".to_string());
    assert_eq!(stderr_path("/run/user/1000/app"), "/run/user/1000/app/stderr.txt".to_string());
}

#[test]
fn foreground_bootstrap_creates_dir_then_pid_then_binds() {
    let mut boot = Bootstrap::new(false);
    assert_eq!(boot.next_action(), BootAction::CreateDir);
    boot.step(BootEvent::DirCreated(true));
    assert_eq!(boot.next_action(), BootAction::ProbePidFile);
    boot.step(BootEvent::PidProbed(false));
    assert_eq!(boot.next_action(), BootAction::WritePidForeground);
    boot.step(BootEvent::PidWritten(true));
    assert_eq!(boot.next_action(), BootAction::BindSocket);
    boot.step(BootEvent::SocketBound(true));
    assert_eq!(boot.phase, BootPhase::Running);
    assert_eq!(boot.next_action(), BootAction::EnterAcceptLoop);
    assert!(boot.is_terminal());
}

#[test]
fn background_bootstrap_daemonizes_instead_of_writing_directly() {
    let mut boot = Bootstrap::new(true);
    boot.step(BootEvent::DirCreated(true));
    boot.step(BootEvent::PidProbed(false));
    assert_eq!(boot.next_action(), BootAction::DaemonizeWithLogs);
    boot.step(BootEvent::Daemonized(true));
    boot.step(BootEvent::SocketBound(true));
    assert_eq!(boot.phase, BootPhase::Running);
}

#[test]
fn existing_pid_file_ends_bootstrap_benignly_without_bind() {
    let mut boot = Bootstrap::new(false);
    boot.step(BootEvent::DirCreated(true));
    assert_eq!(boot.next_action(), BootAction::ProbePidFile);
    boot.step(BootEvent::PidProbed(true));
    assert_eq!(boot.phase, BootPhase::AlreadyRunning);
    assert!(boot.is_terminal());
    assert_eq!(boot.next_action(), BootAction::ExitAlreadyRunning);
}

#[test]
fn failed_directory_creation_is_fatal() {
    let mut boot = Bootstrap::new(false);
    boot.step(BootEvent::DirCreated(false));
    assert_eq!(boot.phase, BootPhase::Failed);
    assert_eq!(boot.next_action(), BootAction::FailFatal);
}

#[test]
fn failed_bind_is_fatal() {
    let mut boot = Bootstrap::new(false);
    boot.step(BootEvent::DirCreated(true));
    boot.step(BootEvent::PidProbed(false));
    boot.step(BootEvent::PidWritten(true));
    boot.step(BootEvent::SocketBound(false));
    assert_eq!(boot.phase, BootPhase::Failed);
}

#[test]
fn outcome_that_answers_no_pending_action_is_a_consistency_fault() {
    let mut boot = Bootstrap::new(false);
    boot.step(BootEvent::SocketBound(true));
    assert_eq!(boot.phase, BootPhase::Failed);
}

#[test]
fn bootstrap_after_teardown_starts_from_empty_and_runs() {
    // A first instance ran and tore down: its runtime directory is gone, so
    // the next attempt re-creates it, finds no PID file, and binds.
    let mut boot = Bootstrap::new(false);
    boot.step(BootEvent::DirCreated(true));
    boot.step(BootEvent::PidProbed(false));
    boot.step(BootEvent::PidWritten(true));
    boot.step(BootEvent::SocketBound(true));
    assert_eq!(boot.phase, BootPhase::Running);
}
