//! The pseudo-terminal backend: which shell a terminal session runs and how
//! the terminal is opened for it.

use crate::platform::Platform;
use vstd::prelude::*;

verus! {

/// Rows of a newly opened terminal.
pub const DEFAULT_ROWS: u16 = 24;

/// Columns of a newly opened terminal.
pub const DEFAULT_COLS: u16 = 80;

/// The terminal type announced to the shell.
pub open spec fn terminal_type() -> Seq<char> {
    "xterm-256color"@
}

/// The environment variable that names the user's shell.
pub open spec fn shell_variable(platform: Platform) -> Seq<char> {
    match platform {
        Platform::Posix => "SHELL"@,
        Platform::Windows => "ComSpec"@,
    }
}

/// The shell assumed when the environment names none.
pub open spec fn usual_shell(platform: Platform) -> Seq<char> {
    match platform {
        Platform::Posix => "/bin/bash"@,
        Platform::Windows => "C:\\Windows\\System32\\cmd.exe"@,
    }
}

/// The shell of last resort, which is run without looking for it.
pub open spec fn fallback_shell(platform: Platform) -> Seq<char> {
    match platform {
        Platform::Posix => "/bin/sh"@,
        Platform::Windows => "cmd.exe"@,
    }
}

/// The shells to look for, in order of preference: the one the environment
/// names (the usual one if it names none), then the platform's fixed list.
pub open spec fn shell_candidates(platform: Platform, env_shell: Option<Seq<char>>) -> Seq<
    Seq<char>,
> {
    let first = match env_shell {
        Some(shell) => shell,
        None => usual_shell(platform),
    };
    match platform {
        Platform::Posix => seq![first, "/bin/bash"@, "/bin/zsh"@],
        Platform::Windows => seq![first, "C:\\Windows\\System32\\cmd.exe"@],
    }
}

/// The first candidate, from place `from` on, that was found on disk; the
/// fallback if none was. `present[i]` says whether candidate `i` was found;
/// a candidate without an entry counts as not found.
pub open spec fn first_present(
    candidates: Seq<Seq<char>>,
    present: Seq<bool>,
    fallback: Seq<char>,
    from: int,
) -> Seq<char>
    decreases candidates.len() - from,
{
    if from < 0 || from >= candidates.len() {
        fallback
    } else if from < present.len() && present[from] {
        candidates[from]
    } else {
        first_present(candidates, present, fallback, from + 1)
    }
}

/// The shell that a terminal session runs.
pub open spec fn default_shell(platform: Platform, env_shell: Option<Seq<char>>, present: Seq<bool>)
    -> Seq<char> {
    first_present(shell_candidates(platform, env_shell), present, fallback_shell(platform), 0)
}

/// The name of the environment variable that names the user's shell.
pub fn shell_variable_name(platform: Platform) -> (name: &'static str)
    ensures
        name@ == shell_variable(platform),
{
    match platform {
        Platform::Posix => "SHELL",
        Platform::Windows => "ComSpec",
    }
}

/// Lists the shells to look for on disk, in order of preference.
/// `env_shell` is the value of the shell variable, if it is set.
pub fn list_shell_candidates(platform: Platform, env_shell: Option<&str>) -> (candidates: Vec<
    String,
>)
    ensures
        candidates.deep_view() == shell_candidates(
            platform,
            match env_shell {
                Some(shell) => Some(shell@),
                None => None,
            },
        ),
{
    let mut candidates: Vec<String> = Vec::new();
    match platform {
        Platform::Posix => {
            match env_shell {
                Some(shell) => candidates.push(String::from_str(shell)),
                None => candidates.push(String::from_str("/bin/bash")),
            }
            candidates.push(String::from_str("/bin/bash"));
            candidates.push(String::from_str("/bin/zsh"));
        },
        Platform::Windows => {
            match env_shell {
                Some(shell) => candidates.push(String::from_str(shell)),
                None => candidates.push(String::from_str("C:\\Windows\\System32\\cmd.exe")),
            }
            candidates.push(String::from_str("C:\\Windows\\System32\\cmd.exe"));
        },
    }
    assert(candidates.deep_view() =~= shell_candidates(
        platform,
        match env_shell {
            Some(shell) => Some(shell@),
            None => None,
        },
    ));
    candidates
}

/// Chooses the shell of a terminal session. `env_shell` is the value of the
/// shell variable, if it is set; `present[i]` says whether the `i`-th of the
/// candidates listed for it exists on disk.
pub fn detect_default_shell(platform: Platform, env_shell: Option<&str>, present: &Vec<bool>) -> (shell:
    String)
    ensures
        shell@ == default_shell(
            platform,
            match env_shell {
                Some(shell) => Some(shell@),
                None => None,
            },
            present@,
        ),
{
    let candidates = list_shell_candidates(platform, env_shell);
    let ghost wanted = candidates.deep_view();
    let ghost fallback = fallback_shell(platform);
    let ghost named: Option<Seq<char>> = match env_shell {
        Some(shell) => Some(shell@),
        None => None,
    };
    let ghost goal = default_shell(platform, named, present@);
    let mut i: usize = 0;
    while i < candidates.len()
        invariant
            i <= candidates@.len(),
            wanted == candidates.deep_view(),
            wanted.len() == candidates@.len(),
            named == (match env_shell {
                Some(shell) => Some(shell@),
                None => None,
            }),
            goal == default_shell(platform, named, present@),
            goal == first_present(wanted, present@, fallback, i as int),
        decreases candidates.len() - i,
    {
        if i < present.len() && present[i] {
            assert(wanted[i as int] == candidates@[i as int]@);
            return candidates[i].clone();
        }
        i += 1;
    }
    match platform {
        Platform::Posix => String::from_str("/bin/sh"),
        Platform::Windows => String::from_str("cmd.exe"),
    }
}

/// How a terminal is opened for a session, as plain values.
pub struct PtyLaunchModel {
    pub shell: Seq<char>,
    pub working_directory: Seq<char>,
    pub term: Seq<char>,
    pub rows: u16,
    pub cols: u16,
}

/// How a terminal is opened for a session: the shell to attach to it, the
/// directory the shell starts in, the value of `TERM`, and the size.
#[derive(Debug)]
pub struct PtyLaunch {
    pub shell: String,
    pub working_directory: String,
    pub term: String,
    pub rows: u16,
    pub cols: u16,
}

impl View for PtyLaunch {
    type V = PtyLaunchModel;

    open spec fn view(&self) -> PtyLaunchModel {
        PtyLaunchModel {
            shell: self.shell@,
            working_directory: self.working_directory@,
            term: self.term@,
            rows: self.rows,
            cols: self.cols,
        }
    }
}

/// The opening of a terminal of the default size for `shell` in the given
/// directory.
pub open spec fn pty_launch(shell: Seq<char>, working_directory: Seq<char>) -> PtyLaunchModel {
    PtyLaunchModel {
        shell,
        working_directory,
        term: terminal_type(),
        rows: DEFAULT_ROWS,
        cols: DEFAULT_COLS,
    }
}

/// Plans the opening of a terminal for `shell` in `working_directory`.
pub fn build_pty_launch(working_directory: &str, shell: &str) -> (launch: PtyLaunch)
    ensures
        launch@ == pty_launch(shell@, working_directory@),
{
    PtyLaunch {
        shell: String::from_str(shell),
        working_directory: String::from_str(working_directory),
        term: String::from_str("xterm-256color"),
        rows: DEFAULT_ROWS,
        cols: DEFAULT_COLS,
    }
}

} // verus!
