use pseudo_terminal::child::{ChildLifecycle, ChildState, ExitStatus, ProcessError, TerminalPool};
use pseudo_terminal::command::{fork_command_line, RustPseudoTerminal};
use pseudo_terminal::env::{has_key, has_unique_keys, overlay_env, EnvList};
use pseudo_terminal::output::OutputStream;
use pseudo_terminal::path::{handle_path_space, is_plain_word, quote_path_for, Shell};

fn pairs(items: &[(&str, &str)]) -> EnvList {
    items.iter().map(|(k, v)| (k.to_string(), v.to_string())).collect()
}

fn lookup<'a>(env: &'a EnvList, key: &str) -> Option<&'a str> {
    env.iter().rev().find(|(k, _)| k == key).map(|(_, v)| v.as_str())
}

#[test]
fn fork_builds_runtime_command() {
    let pty = RustPseudoTerminal::new();
    let spec = pty.fork(
        "job1".to_string(),
        "/opt/helper.js".to_string(),
        "/tmp/ipc.sock".to_string(),
        None,
        None,
        None,
        true,
    );
    assert_eq!(spec.command, "node /opt/helper.js /tmp/ipc.sock job1");
    assert!(spec.tty);
    assert!(spec.quiet);
    assert_eq!(spec.command_dir, None);
    assert!(spec.env.is_none());
    assert!(spec.exec_argv.is_none());
}

#[test]
fn fork_quotes_script_with_space() {
    let pty = RustPseudoTerminal::new();
    let spec = pty.fork(
        "job1".to_string(),
        "/opt/my helper.js".to_string(),
        "/tmp/ipc.sock".to_string(),
        Some("/work".to_string()),
        Some(pairs(&[("K", "V")])),
        Some(vec!["--inspect".to_string()]),
        false,
    );
    assert_eq!(spec.command, "node '/opt/my helper.js' /tmp/ipc.sock job1");
    assert!(spec.tty);
    assert!(!spec.quiet);
    assert_eq!(spec.command_dir, Some("/work".to_string()));
    assert_eq!(spec.env, Some(pairs(&[("K", "V")])));
    assert_eq!(spec.exec_argv, Some(vec!["--inspect".to_string()]));
}

#[test]
fn fork_command_line_order() {
    let line = fork_command_line(Shell::Posix, &"7".to_string(), "a b".to_string(), &"/s".to_string());
    assert_eq!(line, "node 'a b' /s 7");
}

#[test]
fn run_command_defaults() {
    let pty = RustPseudoTerminal::new();
    let spec = pty.run_command("echo hi".to_string(), None, None, None, None, None);
    assert_eq!(spec.command, "echo hi");
    assert!(!spec.quiet);
    assert!(spec.tty);
}

#[test]
fn run_command_forwards_flags() {
    let pty = RustPseudoTerminal::new();
    let spec = pty.run_command(
        "ls".to_string(),
        Some("/tmp".to_string()),
        None,
        None,
        Some(true),
        Some(false),
    );
    assert!(spec.quiet);
    assert!(!spec.tty);
    assert_eq!(spec.command_dir, Some("/tmp".to_string()));
}

#[test]
fn path_without_space_is_unchanged() {
    assert_eq!(handle_path_space("/opt/helper.js".to_string()), "/opt/helper.js");
    assert_eq!(handle_path_space("a-b_c+d,e:f@g%h.js".to_string()), "a-b_c+d,e:f@g%h.js");
}

#[test]
fn empty_path_is_quoted() {
    assert_eq!(handle_path_space(String::new()), "''");
}

#[test]
fn path_with_tab_is_quoted() {
    assert_eq!(handle_path_space("/opt/a\tb.js".to_string()), "'/opt/a\tb.js'");
}

#[test]
fn path_with_quote_is_escaped() {
    assert_eq!(
        handle_path_space("/opt/it's here.js".to_string()),
        "'/opt/it'\\''s here.js'"
    );
    assert_eq!(handle_path_space("'".to_string()), "''\\'''");
}

#[test]
fn path_with_shell_characters_is_quoted() {
    assert_eq!(handle_path_space("/opt/a;b.js".to_string()), "'/opt/a;b.js'");
    assert_eq!(handle_path_space("$HOME/x.js".to_string()), "'$HOME/x.js'");
    assert_eq!(handle_path_space("/a&b*(c).js".to_string()), "'/a&b*(c).js'");
}

#[test]
fn cmd_paths() {
    assert_eq!(quote_path_for(Shell::Cmd, "C:\\tools\\h.js".to_string()), "C:\\tools\\h.js");
    assert_eq!(
        quote_path_for(Shell::Cmd, "C:\\my tools\\h.js".to_string()),
        "\"C:\\my tools\\h.js\""
    );
    assert_eq!(quote_path_for(Shell::Cmd, "a%b".to_string()), "\"a%b\"");
    assert_eq!(quote_path_for(Shell::Posix, "a b".to_string()), "'a b'");
}

#[test]
fn fork_for_cmd_shell() {
    let pty = RustPseudoTerminal::with_shell(Shell::Cmd);
    assert_eq!(pty.shell, Shell::Cmd);
    let spec = pty.fork(
        "j".to_string(),
        "C:\\my dir\\f.js".to_string(),
        "p".to_string(),
        None,
        None,
        None,
        false,
    );
    assert_eq!(spec.command, "node \"C:\\my dir\\f.js\" p j");
    assert_eq!(RustPseudoTerminal::new().shell, Shell::Posix);
}

#[test]
fn path_with_space_is_quoted() {
    assert_eq!(handle_path_space("/opt/my helper.js".to_string()), "'/opt/my helper.js'");
    assert_eq!(handle_path_space(" ".to_string()), "' '");
}

#[test]
fn plain_word_detection() {
    assert!(is_plain_word("/opt/x.js"));
    assert!(!is_plain_word("a b"));
    assert!(!is_plain_word(""));
    assert!(!is_plain_word("a'b"));
}

#[test]
fn environment_overlay() {
    let parent = pairs(&[("A", "1")]);
    let overrides = pairs(&[("A", "2"), ("B", "3")]);
    let env = overlay_env(&parent, &overrides);
    assert_eq!(lookup(&env, "A"), Some("2"));
    assert_eq!(lookup(&env, "B"), Some("3"));
    assert_eq!(env.len(), 2);
}

#[test]
fn environment_overlay_keeps_parent_names() {
    let parent = pairs(&[("PATH", "/bin"), ("HOME", "/root")]);
    let env = overlay_env(&parent, &pairs(&[("HOME", "/home/x")]));
    assert_eq!(lookup(&env, "PATH"), Some("/bin"));
    assert_eq!(lookup(&env, "HOME"), Some("/home/x"));
    assert_eq!(env.len(), 2);
    assert_eq!(overlay_env(&EnvList::new(), &EnvList::new()), EnvList::new());
}

#[test]
fn key_lookup() {
    let env = pairs(&[("A", "1"), ("B", "2")]);
    assert!(has_key(&env, &"B".to_string()));
    assert!(!has_key(&env, &"C".to_string()));
}

#[test]
fn child_env_with_overrides_and_argv() {
    let pty = RustPseudoTerminal::new();
    let spec = pty.run_command(
        "x".to_string(),
        None,
        Some(pairs(&[("A", "2"), ("B", "3")])),
        Some(vec!["--a".to_string(), "--b".to_string()]),
        None,
        None,
    );
    let env = spec.child_env(&pairs(&[("A", "1"), ("C", "4")]));
    assert_eq!(lookup(&env, "A"), Some("2"));
    assert_eq!(lookup(&env, "B"), Some("3"));
    assert_eq!(lookup(&env, "C"), Some("4"));
    assert_eq!(env.len(), 3);
    assert_eq!(spec.exec_argv, Some(vec!["--a".to_string(), "--b".to_string()]));
}

#[test]
fn child_env_without_overrides() {
    let pty = RustPseudoTerminal::new();
    let spec = pty.run_command("x".to_string(), None, None, Some(vec![]), None, None);
    let env = spec.child_env(&pairs(&[("A", "1")]));
    assert_eq!(env, pairs(&[("A", "1")]));
    assert_eq!(spec.child_env(&EnvList::new()), EnvList::new());
}

#[test]
fn unique_keys_detection() {
    assert!(has_unique_keys(&EnvList::new()));
    assert!(has_unique_keys(&pairs(&[("A", "1"), ("B", "1")])));
    assert!(!has_unique_keys(&pairs(&[("A", "1"), ("B", "2"), ("A", "3")])));
}

#[test]
fn kill_running_child_then_exited_child() {
    let mut child = ChildLifecycle::spawned();
    child.start();
    assert_eq!(child.state, ChildState::Running);
    assert_eq!(child.kill(), Ok(()));
    assert!(child.kill_sent);
    assert_eq!(child.state, ChildState::Running);
    assert_eq!(child.observe_exit(ExitStatus::Signaled), ExitStatus::Signaled);
    assert_eq!(child.kill(), Err(ProcessError::NoSuchProcess));
}

#[test]
fn wait_status_is_cached() {
    let mut child = ChildLifecycle::spawned();
    assert_eq!(child.cached_status(), None);
    assert_eq!(child.observe_exit(ExitStatus::Code(3)), ExitStatus::Code(3));
    assert_eq!(child.observe_exit(ExitStatus::Code(0)), ExitStatus::Code(3));
    assert_eq!(child.cached_status(), Some(ExitStatus::Code(3)));
    child.start();
    assert_eq!(child.state, ChildState::Exited(ExitStatus::Code(3)));
}

#[test]
fn write_after_exit_is_closed_channel() {
    let mut child = ChildLifecycle::spawned();
    assert_eq!(child.check_write(), Ok(()));
    child.observe_exit(ExitStatus::Code(0));
    assert_eq!(child.check_write(), Err(ProcessError::ClosedChannel));
}

#[test]
fn resize_without_support() {
    let mut child = ChildLifecycle::spawned();
    child.start();
    assert_eq!(child.resize(80, 24, false), Err(ProcessError::Unsupported));
    assert_eq!(child.state, ChildState::Running);
    assert_eq!(child.resize(120, 40, true), Ok(()));
}

#[test]
fn terminal_released_once() {
    let mut pool = TerminalPool::new();
    assert_eq!(pool.allocate(), Ok(()));
    let mut child = pool.settle_spawn(Ok(())).unwrap();
    assert_eq!(pool.open, 1);
    pool.release(&mut child);
    assert_eq!(pool.open, 0);
    pool.release(&mut child);
    assert_eq!(pool.open, 0);
}

#[test]
fn failed_spawn_releases_terminal() {
    let mut pool = TerminalPool::new();
    assert_eq!(pool.allocate(), Ok(()));
    assert_eq!(pool.open, 1);
    let r = pool.settle_spawn(Err(ProcessError::SpawnFailed));
    assert!(matches!(r, Err(ProcessError::SpawnFailed)));
    assert_eq!(pool.open, 0);
}

#[test]
fn allocation_exhausted() {
    let mut pool = TerminalPool { open: u64::MAX };
    assert_eq!(pool.allocate(), Err(ProcessError::ResourceExhausted));
    assert_eq!(pool.open, u64::MAX);
}

#[test]
fn output_read_in_order_once() {
    let mut out = OutputStream::new();
    out.write(b"hello ");
    out.write(b"world");
    assert!(!out.is_finished());
    out.end();
    out.write(b"late");
    assert_eq!(out.read(), b"hello world".to_vec());
    assert!(out.is_finished());
    assert_eq!(out.read(), Vec::<u8>::new());
}

#[test]
fn output_read_continues_from_position() {
    let mut out = OutputStream::new();
    out.write(b"ab");
    assert_eq!(out.read(), b"ab".to_vec());
    out.write(b"cd");
    assert_eq!(out.read(), b"cd".to_vec());
    out.end();
    assert!(out.is_finished());
}

#[test]
fn exit_classification() {
    let mut child = ChildLifecycle::spawned();
    child.start();
    assert_eq!(child.classify_exit(true, 0), ExitStatus::Code(0));
    assert_eq!(child.classify_exit(false, 2), ExitStatus::Code(2));
    child.kill().unwrap();
    assert_eq!(child.classify_exit(false, 1), ExitStatus::Signaled);
    assert_eq!(child.classify_exit(true, 0), ExitStatus::Code(0));
}
