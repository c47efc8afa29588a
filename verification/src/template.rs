//! Command templates: the entries of `BROWSER`, and the commands they resolve
//! to for a URL.
//!
//! A template is a command line in which `%s` stands for the URL, `%c` for a
//! colon and `%%` for a percent sign. The three are replaced one after the
//! other, in this order, each over the whole text that the one before left.

use crate::text::{
    contains_escape, escape_at, from_chars, has_escape, lemma_substituted_at_first_escape,
    lemma_substituted_without_escape, lemma_words_are_words, lemma_words_concat,
    lemma_words_of_word, rows, split_words, substitute, substituted, to_chars, white_space, words,
};
use vstd::prelude::*;

verus! {

/// `text` with `%c` replaced by a colon and then `%%` by a percent sign.
pub open spec fn unescaped(text: Seq<char>) -> Seq<char> {
    substituted(substituted(text, 'c', seq![':']), '%', seq!['%'])
}

/// The command line that `template` stands for: `%s` replaced by `url`, then
/// `%c` by a colon, then `%%` by a percent sign.
pub open spec fn expanded(template: Seq<char>, url: Seq<char>) -> Seq<char> {
    unescaped(substituted(template, 's', url))
}

/// Whether `template` names a program for `url`: its command line holds a word.
pub open spec fn names_program(template: Seq<char>, url: Seq<char>) -> bool {
    words(expanded(template, url)).len() > 0
}

/// The program and its arguments that `template` resolves to for `url`: the
/// words of the command line, followed by `url` if `template` holds no `%s`.
pub open spec fn command_line(template: Seq<char>, url: Seq<char>) -> Seq<Seq<char>> {
    if has_escape(template, 's') {
        words(expanded(template, url))
    } else {
        words(expanded(template, url)).push(url)
    }
}

/// The character sequences that the strings of `v` hold.
pub open spec fn texts(v: Seq<String>) -> Seq<Seq<char>> {
    Seq::new(v.len(), |i: int| v[i]@)
}

/// A program and the arguments to start it with.
#[derive(Clone, Debug, PartialEq, Eq)]
pub struct ResolvedCommand {
    pub program: String,
    pub args: Vec<String>,
}

impl View for ResolvedCommand {
    type V = Seq<Seq<char>>;

    /// The program, followed by its arguments.
    open spec fn view(&self) -> Seq<Seq<char>> {
        seq![self.program@] + texts(self.args@)
    }
}

/// The command line that `template` stands for, over characters.
pub(crate) fn expand_chars(template: &[char], url: &[char]) -> (line: Vec<char>)
    ensures
        line@ == expanded(template@, url@),
{
    let with_url = substitute(template, 's', url);
    let colon: [char; 1] = [':'];
    let with_colons = substitute(with_url.as_slice(), 'c', colon.as_slice());
    let percent: [char; 1] = ['%'];
    assert(colon@ =~= seq![':']);
    assert(percent@ =~= seq!['%']);
    substitute(with_colons.as_slice(), '%', percent.as_slice())
}

/// The command line that `template` stands for: `%s` replaced by `url`, then
/// `%c` by a colon, then `%%` by a percent sign.
pub fn expand(template: &str, url: &str) -> (line: String)
    ensures
        line@ == expanded(template@, url@),
{
    let template_chars = to_chars(template);
    let url_chars = to_chars(url);
    let line = expand_chars(template_chars.as_slice(), url_chars.as_slice());
    from_chars(line.as_slice())
}

/// The command that `template` resolves to for `url`, over characters.
pub(crate) fn resolve_chars(template: &[char], url: &[char]) -> (resolved: Option<ResolvedCommand>)
    ensures
        resolved is Some <==> names_program(template@, url@),
        resolved matches Some(command) ==> command@ == command_line(template@, url@),
{
    let line = expand_chars(template, url);
    let tokens = split_words(line.as_slice());
    if tokens.len() == 0 {
        return None;
    }
    let program = from_chars(tokens[0].as_slice());
    let mut args: Vec<String> = Vec::new();
    let mut i: usize = 1;
    while i < tokens.len()
        invariant
            1 <= i <= tokens.len(),
            texts(args@) == rows(tokens@).subrange(1, i as int),
        decreases tokens.len() - i,
    {
        let arg = from_chars(tokens[i].as_slice());
        let ghost before = args@;
        args.push(arg);
        i += 1;
        assert(texts(args@) =~= texts(before).push(arg@));
    }
    let ghost split = args@;
    if !contains_escape(template, 's') {
        let arg = from_chars(url);
        args.push(arg);
    }
    let command = ResolvedCommand { program, args };
    assert(seq![program@] + texts(split) =~= rows(tokens@));
    Some(command)
}

/// The command that the template `template` resolves to for `url`: the words of
/// its command line, the first of them as the program, followed by `url` as
/// the last argument if the template holds no `%s`. There is none if the command
/// line holds no word.
pub fn resolve_command(template: &str, url: &str) -> (resolved: Option<ResolvedCommand>)
    ensures
        resolved is Some <==> names_program(template@, url@),
        resolved matches Some(command) ==> command@ == command_line(template@, url@),
{
    let template_chars = to_chars(template);
    let url_chars = to_chars(url);
    resolve_chars(template_chars.as_slice(), url_chars.as_slice())
}

/// A text without a percent sign holds no escape.
pub proof fn lemma_no_percent_no_escape(text: Seq<char>, code: char)
    requires
        !text.contains('%'),
    ensures
        !has_escape(text, code),
{
    assert forall|i: int| escape_at(text, code, i) implies text[i] == '%' by {}
}

/// A template without `%s` resolves to the words of the template, its other
/// escapes replaced, followed by the URL as the last argument. Where it holds
/// no escape at all, these are the words of the template itself.
pub proof fn law_url_appended_without_placeholder(template: Seq<char>, url: Seq<char>)
    requires
        !has_escape(template, 's'),
    ensures
        command_line(template, url) == words(unescaped(template)).push(url),
        !has_escape(template, 'c') && !has_escape(template, '%') ==> command_line(template, url)
            == words(template).push(url),
{
    lemma_substituted_without_escape(template, 's', url);
    if !has_escape(template, 'c') && !has_escape(template, '%') {
        lemma_substituted_without_escape(template, 'c', seq![':']);
        lemma_substituted_without_escape(template, '%', seq!['%']);
    }
}

/// A template with `%s` resolves to the words of its command line alone: the
/// URL is not appended. In the first of the three replacements the URL takes
/// the place of the first `%s`, letter for letter.
pub proof fn law_url_replaces_placeholder(before: Seq<char>, behind: Seq<char>, url: Seq<char>)
    requires
        !has_escape(before, 's'),
    ensures
        command_line(before + seq!['%', 's'] + behind, url) == words(
            expanded(before + seq!['%', 's'] + behind, url),
        ),
        substituted(before + seq!['%', 's'] + behind, 's', url) == before + url + substituted(
            behind,
            's',
            url,
        ),
{
    let template = before + seq!['%', 's'] + behind;
    assert(escape_at(template, 's', before.len() as int));
    assert forall|i: int| !escape_at(before + seq!['%'], 's', i) by {
        if escape_at(before + seq!['%'], 's', i) {
            assert(escape_at(before, 's', i));
        }
    }
    lemma_substituted_at_first_escape(before, behind, 's', url);
}

/// Where `%s` stands once and the two later replacements find nothing to
/// replace, the command line is the template with the URL in the place of
/// `%s`.
pub proof fn law_url_stands_for_placeholder(before: Seq<char>, behind: Seq<char>, url: Seq<char>)
    requires
        !has_escape(before, 's'),
        !has_escape(behind, 's'),
        !has_escape(before + url + behind, 'c'),
        !has_escape(before + url + behind, '%'),
    ensures
        expanded(before + seq!['%', 's'] + behind, url) == before + url + behind,
        command_line(before + seq!['%', 's'] + behind, url) == words(before + url + behind),
{
    law_url_replaces_placeholder(before, behind, url);
    lemma_substituted_without_escape(behind, 's', url);
    lemma_substituted_without_escape(before + url + behind, 'c', seq![':']);
    lemma_substituted_without_escape(before + url + behind, '%', seq!['%']);
}

/// Where, beyond that, the URL is one word and `%s` stands between white space
/// or at an end of the template, the URL is one argument of the command, in the
/// place of `%s` among the words of the template.
pub proof fn law_url_is_argument_in_place(before: Seq<char>, behind: Seq<char>, url: Seq<char>)
    requires
        !has_escape(before, 's'),
        !has_escape(behind, 's'),
        !has_escape(before + url + behind, 'c'),
        !has_escape(before + url + behind, '%'),
        url.len() > 0,
        forall|i: int| 0 <= i < url.len() ==> !white_space(#[trigger] url[i]),
        before.len() == 0 || white_space(before.last()),
        behind.len() == 0 || white_space(behind[0]),
    ensures
        command_line(before + seq!['%', 's'] + behind, url) == words(before) + seq![url] + words(
            behind,
        ),
{
    law_url_stands_for_placeholder(before, behind, url);
    lemma_words_concat(before, url);
    lemma_words_concat(before + url, behind);
    lemma_words_of_word(url);
}

/// Between texts without a percent sign, `%c` resolves to a colon.
pub proof fn law_colon_escape(before: Seq<char>, behind: Seq<char>, url: Seq<char>)
    requires
        !before.contains('%'),
        !behind.contains('%'),
    ensures
        expanded(before + seq!['%', 'c'] + behind, url) == before + seq![':'] + behind,
{
    let template = before + seq!['%', 'c'] + behind;
    let resolved = before + seq![':'] + behind;
    // The only percent sign of the template stands before the `c`.
    assert forall|i: int| !escape_at(template, 's', i) by {}
    lemma_substituted_without_escape(template, 's', url);
    assert forall|i: int| !escape_at(before + seq!['%'], 'c', i) by {}
    lemma_substituted_at_first_escape(before, behind, 'c', seq![':']);
    lemma_no_percent_no_escape(behind, 'c');
    lemma_substituted_without_escape(behind, 'c', seq![':']);
    // With the colon in its place no percent sign is left.
    assert forall|i: int| 0 <= i < resolved.len() implies resolved[i] != '%' by {}
    lemma_no_percent_no_escape(resolved, '%');
    lemma_substituted_without_escape(resolved, '%', seq!['%']);
}

/// Between texts without a percent sign, `%%` resolves to one percent sign,
/// unless the letter behind it makes an escape of its second half.
pub proof fn law_percent_escape(before: Seq<char>, behind: Seq<char>, url: Seq<char>)
    requires
        !before.contains('%'),
        !behind.contains('%'),
        behind.len() == 0 || (behind[0] != 's' && behind[0] != 'c'),
    ensures
        expanded(before + seq!['%', '%'] + behind, url) == before + seq!['%'] + behind,
{
    let template = before + seq!['%', '%'] + behind;
    // Neither percent sign of the template stands before an `s` or a `c`.
    assert forall|i: int| !escape_at(template, 's', i) && !escape_at(template, 'c', i) by {}
    lemma_substituted_without_escape(template, 's', url);
    lemma_substituted_without_escape(template, 'c', seq![':']);
    assert forall|i: int| !escape_at(before + seq!['%'], '%', i) by {}
    lemma_substituted_at_first_escape(before, behind, '%', seq!['%']);
    lemma_no_percent_no_escape(behind, '%');
    lemma_substituted_without_escape(behind, '%', seq!['%']);
}

/// The program of a resolved command is a word: it holds a character and no
/// white space. So is every argument that stems from the template.
pub proof fn law_program_is_a_word(template: Seq<char>, url: Seq<char>)
    requires
        names_program(template, url),
    ensures
        command_line(template, url)[0] == words(expanded(template, url))[0],
        forall|k: int|
            0 <= k < words(expanded(template, url)).len() ==> (#[trigger] command_line(
                template,
                url,
            )[k]).len() > 0,
        forall|k: int, i: int|
            0 <= k < words(expanded(template, url)).len() && 0 <= i < command_line(
                template,
                url,
            )[k].len() ==> !white_space(#[trigger] command_line(template, url)[k][i]),
{
    lemma_words_are_words(expanded(template, url));
}

} // verus!
