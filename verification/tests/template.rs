use browser_launch::template::{expand, resolve_command, ResolvedCommand};

fn command(program: &str, args: &[&str]) -> ResolvedCommand {
    ResolvedCommand {
        program: program.to_owned(),
        args: args.iter().map(|arg| (*arg).to_owned()).collect(),
    }
}

const TEMPLATES: [&str; 20] = [
    "",
    " ",
    "firefox",
    "firefox %s",
    "  firefox   %s  ",
    "chromium --app=%s",
    "%s",
    "%%s",
    "%%c",
    "%c%s%%",
    "%s%s",
    "%%%s",
    "a%cb%%c%",
    "echo 100%% %c %s",
    "%",
    "%%%%",
    "w3m\t%s\n",
    "open\u{a0}-a\u{3000}Safari",
    "x %S %C",
    "caf\u{e9} %s",
];

const URLS: [&str; 9] = [
    "http://example.com",
    "",
    "http://example.com/a b",
    "http://example.com/%c3%a9",
    "100%%",
    "%s",
    "%",
    "c",
    "file:///tmp/x y/\u{e9}.html",
];

#[test]
fn expand_agrees_with_three_replacements_of_std() {
    for template in TEMPLATES {
        for url in URLS {
            let expected = template.replace("%s", url).replace("%c", ":").replace("%%", "%");
            assert_eq!(expand(template, url), expected, "{:?} {:?}", template, url);
        }
    }
}

#[test]
fn expand_puts_the_url_in_the_place_of_the_placeholder() {
    assert_eq!(expand("firefox %s", "http://example.com"), "firefox http://example.com");
    assert_eq!(
        expand("chromium --app=%s --new-window", "http://example.com"),
        "chromium --app=http://example.com --new-window"
    );
    assert_eq!(expand("%s %s", "u"), "u u");
}

#[test]
fn expand_resolves_colon_escape() {
    assert_eq!(expand("a%cb", "u"), "a:b");
    assert_eq!(expand("%c", "u"), ":");
    assert_eq!(expand("run --at=host%c8080 %s", "u"), "run --at=host:8080 u");
}

#[test]
fn expand_resolves_percent_escape() {
    assert_eq!(expand("100%%", "u"), "100%");
    assert_eq!(expand("%%", "u"), "%");
    assert_eq!(expand("%%%%", "u"), "%%");
}

#[test]
fn expand_replaces_in_the_fixed_order() {
    // `%s` goes first, so the second half of `%%` can start one.
    assert_eq!(expand("%%s", "u"), "%u");
    // `%c` goes before `%%`.
    assert_eq!(expand("%%c", "u"), "%:");
    // What an earlier replacement brought in is searched by the later ones.
    assert_eq!(expand("open %s", "http://example.com/%c3%a9"), "open http://example.com/:3%a9");
    assert_eq!(expand("open %s", "100%%"), "open 100%");
    // The URL itself is not searched for `%s`.
    assert_eq!(expand("open %s", "%s"), "open %s");
    // A percent sign at the end of the URL meets the letter behind the placeholder.
    assert_eq!(expand("%sc", "%"), ":");
}

#[test]
fn expand_leaves_other_text_alone() {
    assert_eq!(expand("", "u"), "");
    assert_eq!(expand("x %S %C %d %", "u"), "x %S %C %d %");
}

#[test]
fn resolve_with_placeholder_does_not_append_the_url() {
    assert_eq!(
        resolve_command("firefox %s", "http://example.com"),
        Some(command("firefox", &["http://example.com"]))
    );
    assert_eq!(
        resolve_command("chromium --incognito %s --new-window", "http://example.com"),
        Some(command("chromium", &["--incognito", "http://example.com", "--new-window"]))
    );
    assert_eq!(
        resolve_command("chromium --app=%s", "http://example.com"),
        Some(command("chromium", &["--app=http://example.com"]))
    );
}

#[test]
fn resolve_without_placeholder_appends_the_url() {
    assert_eq!(
        resolve_command("firefox", "http://example.com"),
        Some(command("firefox", &["http://example.com"]))
    );
    assert_eq!(
        resolve_command("  firefox   --private-window ", "http://example.com"),
        Some(command("firefox", &["--private-window", "http://example.com"]))
    );
}

#[test]
fn resolve_appends_the_url_as_it_is() {
    assert_eq!(
        resolve_command("firefox", "http://example.com/a b%c%%"),
        Some(command("firefox", &["http://example.com/a b%c%%"]))
    );
    assert_eq!(resolve_command("firefox", ""), Some(command("firefox", &[""])));
}

#[test]
fn resolve_splits_a_substituted_url_at_white_space() {
    assert_eq!(
        resolve_command("firefox %s", "http://example.com/a b"),
        Some(command("firefox", &["http://example.com/a", "b"]))
    );
    assert_eq!(resolve_command("firefox %s", ""), Some(command("firefox", &[])));
}

#[test]
fn resolve_resolves_escapes_in_arguments() {
    assert_eq!(
        resolve_command("run host%c80 100%% %s", "u"),
        Some(command("run", &["host:80", "100%", "u"]))
    );
    assert_eq!(resolve_command("run host%c80 100%%", "u"), Some(command("run", &["host:80", "100%", "u"])));
}

#[test]
fn resolve_takes_the_program_from_the_url_if_the_placeholder_comes_first() {
    assert_eq!(resolve_command("%s", "lynx"), Some(command("lynx", &[])));
    assert_eq!(resolve_command("%s --help", "lynx -v"), Some(command("lynx", &["-v", "--help"])));
}

#[test]
fn resolve_finds_no_command_in_a_blank_line() {
    assert_eq!(resolve_command("", "http://example.com"), None);
    assert_eq!(resolve_command("   ", "http://example.com"), None);
    assert_eq!(resolve_command(" \t\u{a0}\n", "http://example.com"), None);
    assert_eq!(resolve_command("%s", ""), None);
    assert_eq!(resolve_command(" %s ", " "), None);
}

#[test]
fn resolve_agrees_with_std() {
    for template in TEMPLATES {
        for url in URLS {
            let line = template.replace("%s", url).replace("%c", ":").replace("%%", "%");
            let mut tokens: Vec<String> = line.split_whitespace().map(str::to_owned).collect();
            let expected = if tokens.is_empty() {
                None
            } else {
                let program = tokens.remove(0);
                if !template.contains("%s") {
                    tokens.push(url.to_owned());
                }
                Some(ResolvedCommand { program, args: tokens })
            };
            assert_eq!(resolve_command(template, url), expected, "{:?} {:?}", template, url);
        }
    }
}

#[test]
fn program_and_arguments_from_the_template_are_words() {
    for template in TEMPLATES {
        for url in URLS {
            if let Some(command) = resolve_command(template, url) {
                let from_template = if template.contains("%s") {
                    command.args.len()
                } else {
                    command.args.len() - 1
                };
                assert!(!command.program.is_empty());
                assert!(!command.program.contains(char::is_whitespace));
                for arg in &command.args[..from_template] {
                    assert!(!arg.is_empty(), "{:?} {:?}", template, url);
                    assert!(!arg.contains(char::is_whitespace), "{:?} {:?}", template, url);
                }
            }
        }
    }
}
