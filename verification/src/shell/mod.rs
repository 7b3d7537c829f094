//! Supported shells, and how a session starts one.
use vstd::prelude::*;
use crate::text::{chars_of, concat2, owned, string_or};

verus! {

/// A shell Tabra integrates with.
#[derive(Debug, Clone, Copy, PartialEq, Eq, Structural)]
pub enum ShellType {
    Zsh,
    Bash,
    Fish,
}

/// The program a session runs: the chosen shell by name, else `$SHELL`,
/// else `bash`.
pub open spec fn shell_program_spec(shell: Option<ShellType>, env_shell: Option<Seq<char>>) -> Seq<char> {
    match shell {
        Some(ShellType::Bash) => "bash"@,
        Some(ShellType::Zsh) => "zsh"@,
        Some(ShellType::Fish) => "fish"@,
        None => match env_shell {
            Some(s) => s,
            None => "bash"@,
        },
    }
}

/// The shell program for a session, given the `$SHELL` of the
/// environment when it is set.
pub fn shell_program(shell: Option<ShellType>, env_shell: &Option<String>) -> (r: String)
    ensures
        r@ == shell_program_spec(
            shell,
            match env_shell {
                Some(s) => Some(s@),
                None => None,
            },
        ),
{
    match shell {
        Some(ShellType::Bash) => owned("bash"),
        Some(ShellType::Zsh) => owned("zsh"),
        Some(ShellType::Fish) => owned("fish"),
        None => string_or(env_shell, "bash"),
    }
}

/// Whether `s` ends with `suffix`.
pub open spec fn ends_with_spec(s: Seq<char>, suffix: Seq<char>) -> bool {
    suffix.len() <= s.len() && s.subrange(s.len() - suffix.len(), s.len() as int) == suffix
}

fn ends_with(s: &str, suffix: &str) -> (r: bool)
    ensures
        r == ends_with_spec(s@, suffix@),
{
    let a = chars_of(s);
    let b = chars_of(suffix);
    if b.len() > a.len() {
        return false;
    }
    let al = a.len();
    let off = al - b.len();
    let mut i: usize = 0;
    while i < b.len()
        invariant
            a@ == s@,
            b@ == suffix@,
            off + b@.len() == a@.len(),
            al == a@.len(),
            i <= b@.len(),
            forall|k: int| 0 <= k < i ==> a@[off + k] == b@[k],
        decreases b.len() - i,
    {
        if a[off + i] != b[i] {
            assert(s@.subrange(off as int, s@.len() as int)[i as int] != suffix@[i as int]);
            return false;
        }
        i += 1;
    }
    assert(s@.subrange(off as int, s@.len() as int) =~= suffix@);
    true
}

/// The arguments a session starts its shell with so that it sources the
/// integration script: `--rcfile <script>` for bash, `-C "source <script>"`
/// for fish, none for zsh and other shells.
pub open spec fn shell_args_spec(shell: Seq<char>, init_script_path: Seq<char>) -> Seq<Seq<char>> {
    if ends_with_spec(shell, "bash"@) {
        seq!["--rcfile"@, init_script_path]
    } else if ends_with_spec(shell, "fish"@) {
        seq!["-C"@, "source "@ + init_script_path]
    } else {
        seq![]
    }
}

/// The arguments to start `shell` with, given the path of its
/// integration script.
pub fn shell_args(shell: &str, init_script_path: &str) -> (r: Vec<String>)
    ensures
        r@.map_values(|a: String| a@) == shell_args_spec(shell@, init_script_path@),
{
    let mut v: Vec<String> = Vec::new();
    if ends_with(shell, "bash") {
        v.push(owned("--rcfile"));
        v.push(owned(init_script_path));
    } else if ends_with(shell, "fish") {
        v.push(owned("-C"));
        v.push(concat2("source ", init_script_path));
    }
    assert(v@.map_values(|a: String| a@) =~= shell_args_spec(shell@, init_script_path@));
    v
}

} // verus!
