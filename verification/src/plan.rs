//! The commands to try for a URL, in the order in which they are tried.
//!
//! First come the commands that the entries of `BROWSER` resolve to, then a
//! fixed chain of the launchers that desktops bring along.

use crate::browsers::{launch_policy, policy_for, LaunchPolicy};
use crate::template::{command_line, names_program, resolve_chars, texts, ResolvedCommand};
use crate::text::{lemma_pieces_after_first, pieces, rows, split_on, to_chars};
use vstd::prelude::*;

verus! {

/// One command to try, and how to launch it.
#[derive(Clone, Debug, PartialEq, Eq)]
pub struct Attempt {
    pub command: ResolvedCommand,
    pub policy: LaunchPolicy,
}

/// What an [`Attempt`] stands for: the program followed by its arguments, and
/// the policy.
pub struct AttemptView {
    pub line: Seq<Seq<char>>,
    pub policy: LaunchPolicy,
}

impl View for Attempt {
    type V = AttemptView;

    open spec fn view(&self) -> AttemptView {
        AttemptView { line: self.command@, policy: self.policy }
    }
}

/// What the attempts of `v` stand for.
pub open spec fn attempts_view(v: Seq<Attempt>) -> Seq<AttemptView> {
    Seq::new(v.len(), |i: int| v[i]@)
}

/// Whether an entry of `BROWSER` is tried at all: it is not empty, and it
/// names a program for `url`.
pub open spec fn is_candidate(template: Seq<char>, url: Seq<char>) -> bool {
    template.len() > 0 && names_program(template, url)
}

/// The attempt that an entry of `BROWSER` stands for: the command it resolves
/// to, under the policy of its program.
pub open spec fn candidate(template: Seq<char>, url: Seq<char>) -> AttemptView {
    AttemptView {
        line: command_line(template, url),
        policy: policy_for(command_line(template, url)[0]),
    }
}

/// The attempts that `templates` stand for, in their order.
pub open spec fn candidates(templates: Seq<Seq<char>>, url: Seq<char>) -> Seq<AttemptView>
    decreases templates.len(),
{
    if templates.len() == 0 {
        Seq::empty()
    } else if is_candidate(templates.last(), url) {
        candidates(templates.drop_last(), url).push(candidate(templates.last(), url))
    } else {
        candidates(templates.drop_last(), url)
    }
}

/// The attempts that the value of `BROWSER` stands for: one for each of its
/// entries between colons that is a candidate, from left to right.
pub open spec fn browser_attempts(value: Seq<char>, url: Seq<char>) -> Seq<AttemptView> {
    candidates(pieces(value, ':'), url)
}

/// A launcher that is handed the URL and waited for.
pub open spec fn launcher(program: Seq<char>, url: Seq<char>) -> AttemptView {
    AttemptView { line: seq![program, url], policy: LaunchPolicy::Blocking }
}

/// The launcher of KDE, which is told to `exec` the URL and waited for.
pub open spec fn kde_launcher(url: Seq<char>) -> AttemptView {
    AttemptView { line: seq!["kioclient"@, "exec"@, url], policy: LaunchPolicy::Blocking }
}

/// The last resort: the browser that the system names, started in the
/// background.
pub open spec fn last_resort(url: Seq<char>) -> AttemptView {
    AttemptView { line: seq!["x-www-browser"@, url], policy: LaunchPolicy::Background }
}

/// Whether the value of `XDG_CURRENT_DESKTOP` names KDE.
pub open spec fn is_kde(desktop: Option<Seq<char>>) -> bool {
    desktop == Some("KDE"@)
}

/// The launchers to fall back on, in order. Under KDE its launcher comes
/// second; it comes once more near the end, whatever the desktop is.
pub open spec fn fallback_attempts(kde: bool, url: Seq<char>) -> Seq<AttemptView> {
    seq![launcher("xdg-open"@, url)] + (if kde {
        seq![kde_launcher(url)]
    } else {
        Seq::empty()
    }) + seq![
        launcher("gvfs-open"@, url),
        launcher("gnome-open"@, url),
        launcher("open"@, url),
        kde_launcher(url),
        last_resort(url),
    ]
}

/// The text that an optional string holds.
pub open spec fn text_of(value: Option<&str>) -> Option<Seq<char>> {
    match value {
        Some(s) => Some(s@),
        None => None,
    }
}

/// The attempts that the value of `BROWSER` stands for, in the order in which
/// they are tried.
pub fn browser_env_attempts(value: &str, url: &str) -> (attempts: Vec<Attempt>)
    ensures
        attempts_view(attempts@) == browser_attempts(value@, url@),
{
    let value_chars = to_chars(value);
    let url_chars = to_chars(url);
    let templates = split_on(value_chars.as_slice(), ':');
    let mut attempts: Vec<Attempt> = Vec::new();
    let mut i: usize = 0;
    while i < templates.len()
        invariant
            i <= templates.len(),
            url_chars@ == url@,
            attempts_view(attempts@) == candidates(rows(templates@).take(i as int), url@),
        decreases templates.len() - i,
    {
        let ghost seen = rows(templates@).take(i + 1);
        assert(seen.drop_last() =~= rows(templates@).take(i as int));
        if templates[i].len() > 0 {
            match resolve_chars(templates[i].as_slice(), url_chars.as_slice()) {
                Some(command) => {
                    let policy = launch_policy(command.program.as_str());
                    let attempt = Attempt { command, policy };
                    attempts.push(attempt);
                },
                None => {},
            }
        }
        i += 1;
    }
    assert(rows(templates@).take(templates@.len() as int) =~= rows(templates@));
    attempts
}

fn launcher_attempt(program: &str, url: &str) -> (attempt: Attempt)
    ensures
        attempt@ == launcher(program@, url@),
{
    let mut args: Vec<String> = Vec::new();
    args.push(url.to_owned());
    let attempt = Attempt {
        command: ResolvedCommand { program: program.to_owned(), args },
        policy: LaunchPolicy::Blocking,
    };
    assert(attempt@.line =~= seq![program@, url@]);
    attempt
}

fn kde_attempt(url: &str) -> (attempt: Attempt)
    ensures
        attempt@ == kde_launcher(url@),
{
    let mut args: Vec<String> = Vec::new();
    args.push("exec".to_owned());
    args.push(url.to_owned());
    let attempt = Attempt {
        command: ResolvedCommand { program: "kioclient".to_owned(), args },
        policy: LaunchPolicy::Blocking,
    };
    assert(attempt@.line =~= seq!["kioclient"@, "exec"@, url@]);
    attempt
}

fn last_resort_attempt(url: &str) -> (attempt: Attempt)
    ensures
        attempt@ == last_resort(url@),
{
    let mut args: Vec<String> = Vec::new();
    args.push(url.to_owned());
    let attempt = Attempt {
        command: ResolvedCommand { program: "x-www-browser".to_owned(), args },
        policy: LaunchPolicy::Background,
    };
    assert(attempt@.line =~= seq!["x-www-browser"@, url@]);
    attempt
}

/// Whether the value of `XDG_CURRENT_DESKTOP` names KDE.
pub fn names_kde(desktop: Option<&str>) -> (kde: bool)
    ensures
        kde == is_kde(text_of(desktop)),
{
    match desktop {
        Some(name) => name.to_owned() == "KDE".to_owned(),
        None => false,
    }
}

/// The launchers to fall back on for `url`, in the order in which they are
/// tried, given the value of `XDG_CURRENT_DESKTOP`.
pub fn fallback_chain(desktop: Option<&str>, url: &str) -> (attempts: Vec<Attempt>)
    ensures
        attempts_view(attempts@) == fallback_attempts(is_kde(text_of(desktop)), url@),
{
    let mut attempts: Vec<Attempt> = Vec::new();
    attempts.push(launcher_attempt("xdg-open", url));
    if names_kde(desktop) {
        attempts.push(kde_attempt(url));
    }
    attempts.push(launcher_attempt("gvfs-open", url));
    attempts.push(launcher_attempt("gnome-open", url));
    attempts.push(launcher_attempt("open", url));
    attempts.push(kde_attempt(url));
    attempts.push(last_resort_attempt(url));
    attempts
}

/// The attempts that two runs of entries stand for, one run after the other,
/// are those of the first run followed by those of the second.
pub proof fn lemma_candidates_concat(
    first: Seq<Seq<char>>,
    second: Seq<Seq<char>>,
    url: Seq<char>,
)
    ensures
        candidates(first + second, url) == candidates(first, url) + candidates(second, url),
    decreases second.len(),
{
    if second.len() > 0 {
        assert((first + second).drop_last() =~= first + second.drop_last());
        lemma_candidates_concat(first, second.drop_last(), url);
    }
}

/// The entries of `BROWSER` are tried from left to right: the attempt of the
/// entry before the first colon, if that entry is a candidate, comes before
/// every attempt of what follows the colon.
pub proof fn law_entries_are_tried_in_order(first: Seq<char>, rest: Seq<char>, url: Seq<char>)
    requires
        !first.contains(':'),
    ensures
        browser_attempts(first + seq![':'] + rest, url) == if is_candidate(first, url) {
            seq![candidate(first, url)] + browser_attempts(rest, url)
        } else {
            browser_attempts(rest, url)
        },
        browser_attempts(first, url) == if is_candidate(first, url) {
            seq![candidate(first, url)]
        } else {
            Seq::empty()
        },
{
    lemma_pieces_after_first(first, rest, ':');
    lemma_candidates_concat(seq![first], pieces(rest, ':'), url);
    assert(seq![first].drop_last() =~= Seq::<Seq<char>>::empty());
    assert(candidates(Seq::<Seq<char>>::empty(), url) =~= Seq::<AttemptView>::empty());
}

} // verus!
