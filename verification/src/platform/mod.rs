//! What each platform backend decides; running the tools and system calls is left
//! to the caller.
use vstd::prelude::*;

use crate::text::{string_views, to_string};

pub mod darwin;
pub mod linux;
pub mod other;
pub mod windows;

verus! {

/// A program to run and its arguments.
pub struct CommandSpec {
    pub program: String,
    pub args: Vec<String>,
}

/// A command as mathematical values: program and arguments.
pub type CommandView = (Seq<char>, Seq<Seq<char>>);

impl View for CommandSpec {
    type V = CommandView;

    open spec fn view(&self) -> CommandView {
        (self.program@, string_views(self.args@))
    }
}

/// The views of a list of commands.
pub open spec fn command_views(v: Seq<CommandSpec>) -> Seq<CommandView> {
    v.map_values(|c: CommandSpec| c@)
}

/// The command `program args…`.
pub fn command(program: &str, args: Vec<String>) -> (r: CommandSpec)
    ensures
        r@ == (program@, string_views(args@)),
{
    CommandSpec { program: to_string(program), args }
}

/// What a finished tool reported: whether it succeeded, and what it printed on its
/// output and error streams, decoded as UTF-8 with invalid sequences replaced.
pub struct ToolOutput {
    pub success: bool,
    pub stdout: String,
    pub stderr: String,
}

/// The views of a list of argument lists.
pub open spec fn arg_lists(v: Seq<Vec<String>>) -> Seq<Seq<Seq<char>>> {
    v.map_values(|a: Vec<String>| string_views(a@))
}

/// Whether `s` is one of the strings of `v`.
pub fn contains_string(v: &Vec<String>, s: &str) -> (r: bool)
    ensures
        r == string_views(v@).contains(s@),
{
    let mut i: usize = 0;
    while i < v.len()
        invariant
            i <= v.len(),
            forall|k: int| 0 <= k < i ==> #[trigger] string_views(v@)[k] != s@,
        decreases v.len() - i,
    {
        if crate::text::str_eq(v[i].as_str(), s) {
            assert(string_views(v@)[i as int] == s@);
            return true;
        }
        i = i + 1;
    }
    false
}

} // verus!
