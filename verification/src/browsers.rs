//! The browsers that run in the terminal, and how a program is launched.

use crate::text::{ends_with, to_chars};
use vstd::prelude::*;

verus! {

/// How a command is launched.
#[derive(Clone, Copy, Debug, PartialEq, Eq, Structural)]
pub enum LaunchPolicy {
    /// Run the command and wait until it exits: it talks to the user in this
    /// terminal.
    Blocking,
    /// Start the command and go on without waiting for it.
    Background,
}

/// The names of the browsers that run in the terminal.
pub open spec fn text_browsers() -> Seq<Seq<char>> {
    seq!["lynx"@, "links"@, "links2"@, "elinks"@, "w3m"@, "eww"@, "netrik"@, "retawq"@]
}

/// `command` is the program `name`, or a path whose last segment is `name`.
pub open spec fn runs_program(command: Seq<char>, name: Seq<char>) -> bool {
    command == name || (seq!['/'] + name).is_suffix_of(command)
}

/// `command` is one of the text browsers, or a path to one.
pub open spec fn names_text_browser(command: Seq<char>) -> bool {
    exists|i: int|
        0 <= i < text_browsers().len() && runs_program(command, #[trigger] text_browsers()[i])
}

/// The policy under which the program `command` is launched: a text browser
/// blocks, anything else runs in the background.
pub open spec fn policy_for(command: Seq<char>) -> LaunchPolicy {
    if names_text_browser(command) {
        LaunchPolicy::Blocking
    } else {
        LaunchPolicy::Background
    }
}

fn is_program(command: &[char], name: &[char]) -> (r: bool)
    ensures
        r == runs_program(command@, name@),
{
    if command.len() == name.len() && ends_with(command, name) {
        assert(command@.subrange(0, command@.len() as int) =~= command@);
        return true;
    }
    let mut segment: Vec<char> = Vec::new();
    segment.push('/');
    segment.extend_from_slice(name);
    proof {
        if command@ == name@ {
        }
    }
    ends_with(command, segment.as_slice())
}

/// Whether `command` is a known text browser, by its name or by a path that
/// ends in its name.
pub fn is_text_browser(command: &str) -> (r: bool)
    ensures
        r == names_text_browser(command@),
{
    let names: [&str; 8] = ["lynx", "links", "links2", "elinks", "w3m", "eww", "netrik", "retawq"];
    let cmd = to_chars(command);
    let mut i: usize = 0;
    while i < 8
        invariant
            i <= 8,
            cmd@ == command@,
            text_browsers().len() == 8,
            forall|j: int| 0 <= j < 8 ==> names@[j]@ == #[trigger] text_browsers()[j],
            forall|j: int| 0 <= j < i ==> !runs_program(cmd@, #[trigger] text_browsers()[j]),
        decreases 8 - i,
    {
        let name = to_chars(names[i]);
        if is_program(cmd.as_slice(), name.as_slice()) {
            return true;
        }
        i += 1;
    }
    false
}

/// The policy under which the program `command` is launched.
pub fn launch_policy(command: &str) -> (policy: LaunchPolicy)
    ensures
        policy == policy_for(command@),
{
    if is_text_browser(command) {
        LaunchPolicy::Blocking
    } else {
        LaunchPolicy::Background
    }
}

/// Each text browser is launched under the blocking policy, by its name and by
/// any path to it.
pub proof fn law_text_browsers_block(i: int, directory: Seq<char>)
    requires
        0 <= i < text_browsers().len(),
    ensures
        policy_for(text_browsers()[i]) == LaunchPolicy::Blocking,
        policy_for(directory + seq!['/'] + text_browsers()[i]) == LaunchPolicy::Blocking,
{
    let name = text_browsers()[i];
    let path = directory + seq!['/'] + name;
}

} // verus!
