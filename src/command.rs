use vstd::prelude::*;

use crate::env::{env_map, keys_unique, overlay_env, EnvList};
use crate::path::{quote_path_for, quote_for, Shell};

verus! {

/// What to run in a pseudo-terminal. Built once, then handed to the runner.
pub struct CommandSpec {
    /// The command line, run through the platform's shell.
    pub command: String,
    /// Working directory; the current directory where it is `None`.
    pub command_dir: Option<String>,
    /// Variables laid over the parent's environment; no name twice.
    pub env: Option<EnvList>,
    /// Interpreter arguments, in order.
    pub exec_argv: Option<Vec<String>>,
    /// Output is kept from the console.
    pub quiet: bool,
    /// The child is shown a real terminal.
    pub tty: bool,
}

/// The command line that starts the fork helper: the runtime on the helper
/// script, made safe for `shell`, followed by the rendezvous path and the
/// job id.
pub open spec fn fork_command(
    shell: Shell,
    id: Seq<char>,
    fork_script: Seq<char>,
    ipc_path: Seq<char>,
) -> Seq<char> {
    seq!['n', 'o', 'd', 'e', ' '] + quote_for(shell, fork_script) + seq![' '] + ipc_path + seq![' ']
        + id
}

/// Builds the fork helper's command line.
pub fn fork_command_line(
    shell: Shell,
    id: &String,
    fork_script: String,
    pseudo_ipc_path: &String,
) -> (r: String)
    ensures
        r@ == fork_command(shell, id@, fork_script@, pseudo_ipc_path@),
{
    let safe = quote_path_for(shell, fork_script);
    let mut c = String::from_str("node ");
    c.append(safe.as_str());
    c.append(" ");
    c.append(pseudo_ipc_path.as_str());
    c.append(" ");
    c.append(id.as_str());
    proof {
        reveal_strlit("node ");
        reveal_strlit(" ");
        assert(c@ =~= fork_command(shell, id@, fork_script@, pseudo_ipc_path@));
    }
    c
}

/// An optional environment list in which no name occurs twice.
pub open spec fn env_valid(env: Option<EnvList>) -> bool {
    env matches Some(e) ==> keys_unique(e@)
}

impl CommandSpec {
    /// No name is set twice in `env`.
    pub open spec fn wf(&self) -> bool {
        env_valid(self.env)
    }

    /// The variables that `env` sets, as a mapping.
    pub open spec fn env_overrides(&self) -> Map<Seq<char>, Seq<char>> {
        match self.env {
            Some(e) => env_map(e@),
            None => Map::empty(),
        }
    }

    /// The environment the child starts with: `env` laid over `parent`.
    /// Names in `env` take its values; every other name keeps the parent's.
    pub fn child_env(&self, parent: &EnvList) -> (r: EnvList)
        requires
            self.wf(),
            keys_unique(parent@),
        ensures
            env_map(r@) == env_map(parent@).union_prefer_right(self.env_overrides()),
            keys_unique(r@),
    {
        let empty: EnvList = Vec::new();
        assert(env_map(empty@) =~= Map::empty());
        match &self.env {
            Some(e) => overlay_env(parent, e),
            None => overlay_env(parent, &empty),
        }
    }
}

/// Entry point through which commands are started in pseudo-terminals.
pub struct RustPseudoTerminal {
    /// The shell that reads the command lines built here.
    pub shell: Shell,
}

impl RustPseudoTerminal {
    /// Builds command lines for a POSIX shell.
    pub fn new() -> (r: Self)
        ensures
            r.shell == Shell::Posix,
    {
        RustPseudoTerminal { shell: Shell::Posix }
    }

    /// Builds command lines for `shell`.
    pub fn with_shell(shell: Shell) -> (r: Self)
        ensures
            r.shell == shell,
    {
        RustPseudoTerminal { shell }
    }

    /// The spec for running `command`: output is forwarded unless `quiet` is
    /// set, and the child sees a terminal unless `tty` is `Some(false)`.
    pub fn run_command(
        &self,
        command: String,
        command_dir: Option<String>,
        js_env: Option<EnvList>,
        exec_argv: Option<Vec<String>>,
        quiet: Option<bool>,
        tty: Option<bool>,
    ) -> (r: CommandSpec)
        requires
            env_valid(js_env),
        ensures
            r.wf(),
            r.command == command,
            r.command_dir == command_dir,
            r.env == js_env,
            r.exec_argv == exec_argv,
            r.quiet == (quiet == Some(true)),
            r.tty == (tty != Some(false)),
    {
        let quiet = match quiet {
            Some(q) => q,
            None => false,
        };
        let tty = match tty {
            Some(t) => t,
            None => true,
        };
        CommandSpec { command, command_dir, env: js_env, exec_argv, quiet, tty }
    }

    /// The spec for running the fork helper `fork_script` with a rendezvous
    /// path for messages in place of a native channel. The child always sees
    /// a terminal.
    pub fn fork(
        &self,
        id: String,
        fork_script: String,
        pseudo_ipc_path: String,
        command_dir: Option<String>,
        js_env: Option<EnvList>,
        exec_argv: Option<Vec<String>>,
        quiet: bool,
    ) -> (r: CommandSpec)
        requires
            env_valid(js_env),
        ensures
            r.wf(),
            r.command@ == fork_command(self.shell, id@, fork_script@, pseudo_ipc_path@),
            r.command_dir == command_dir,
            r.env == js_env,
            r.exec_argv == exec_argv,
            r.quiet == quiet,
            r.tty == true,
    {
        let command = fork_command_line(self.shell, &id, fork_script, &pseudo_ipc_path);
        self.run_command(command, command_dir, js_env, exec_argv, Some(quiet), Some(true))
    }
}

} // verus!
