//! Which shell runs a command, and with which flag, on each platform.
use vstd::prelude::*;

verus! {

/// The two platform families a command can be run on.
#[derive(Clone, Copy, Debug, PartialEq, Eq, Structural)]
pub enum Platform {
    Windows,
    Posix,
}

/// A shell executable and the flag that makes it run its next argument as a
/// command.
#[derive(Clone, Copy, Debug)]
pub struct ShellSpec {
    pub executable: &'static str,
    pub invoke_flag: &'static str,
}

/// The executable and flag, as text, that each platform uses.
pub open spec fn shell_of(platform: Platform) -> (Seq<char>, Seq<char>) {
    match platform {
        Platform::Windows => (seq!['c', 'm', 'd'], seq!['/', 'C']),
        Platform::Posix => (seq!['b', 'a', 's', 'h'], seq!['-', 'c']),
    }
}

impl ShellSpec {
    /// The executable and flag as text.
    pub open spec fn view_pair(&self) -> (Seq<char>, Seq<char>) {
        (self.executable@, self.invoke_flag@)
    }
}

/// Picks the shell for a platform: `cmd /C` on Windows, `bash -c` elsewhere.
pub fn shell_for(platform: Platform) -> (r: ShellSpec)
    ensures
        r.view_pair() == shell_of(platform),
{
    proof {
        reveal_strlit("cmd");
        reveal_strlit("/C");
        reveal_strlit("bash");
        reveal_strlit("-c");
    }
    match platform {
        Platform::Windows => ShellSpec { executable: "cmd", invoke_flag: "/C" },
        Platform::Posix => ShellSpec { executable: "bash", invoke_flag: "-c" },
    }
}

/// Every platform is given one of exactly two shells, `cmd /C` or `bash -c`,
/// the two differ, and neither has an empty executable or flag.
pub proof fn lemma_shell_is_one_of_two(platform: Platform)
    ensures
        shell_of(platform) == shell_of(Platform::Windows) || shell_of(platform) == shell_of(
            Platform::Posix,
        ),
        shell_of(Platform::Windows) != shell_of(Platform::Posix),
        shell_of(platform).0.len() > 0,
        shell_of(platform).1.len() > 0,
{
    assert(shell_of(Platform::Windows).0.len() != shell_of(Platform::Posix).0.len());
}

} // verus!
