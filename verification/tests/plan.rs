use browser_launch::browsers::LaunchPolicy;
use browser_launch::plan::{browser_env_attempts, fallback_chain, names_kde, Attempt};
use browser_launch::template::ResolvedCommand;

fn attempt(policy: LaunchPolicy, program: &str, args: &[&str]) -> Attempt {
    Attempt {
        command: ResolvedCommand {
            program: program.to_owned(),
            args: args.iter().map(|arg| (*arg).to_owned()).collect(),
        },
        policy,
    }
}

fn blocking(program: &str, args: &[&str]) -> Attempt {
    attempt(LaunchPolicy::Blocking, program, args)
}

fn background(program: &str, args: &[&str]) -> Attempt {
    attempt(LaunchPolicy::Background, program, args)
}

const URL: &str = "http://example.com";

#[test]
fn browser_entries_are_tried_from_left_to_right() {
    assert_eq!(
        browser_env_attempts("firefox %s:chromium", URL),
        vec![background("firefox", &[URL]), background("chromium", &[URL])]
    );
}

#[test]
fn browser_entry_of_a_text_browser_blocks() {
    assert_eq!(
        browser_env_attempts("/usr/bin/lynx -accept_all_cookies:firefox", URL),
        vec![blocking("/usr/bin/lynx", &["-accept_all_cookies", URL]), background("firefox", &[URL])]
    );
    assert_eq!(browser_env_attempts("w3m %s", URL), vec![blocking("w3m", &[URL])]);
}

#[test]
fn empty_browser_entries_are_passed_over() {
    assert_eq!(browser_env_attempts("", URL), vec![]);
    assert_eq!(browser_env_attempts(":", URL), vec![]);
    assert_eq!(browser_env_attempts("::firefox::", URL), vec![background("firefox", &[URL])]);
}

#[test]
fn blank_browser_entries_are_passed_over() {
    assert_eq!(browser_env_attempts(" ", URL), vec![]);
    assert_eq!(browser_env_attempts(" : \t:firefox", URL), vec![background("firefox", &[URL])]);
    assert_eq!(browser_env_attempts("%s:lynx", ""), vec![blocking("lynx", &[""])]);
}

#[test]
fn colon_escape_does_not_end_a_browser_entry() {
    assert_eq!(
        browser_env_attempts("run --at=host%c80 %s:links", URL),
        vec![background("run", &["--at=host:80", URL]), blocking("links", &[URL])]
    );
}

#[test]
fn a_colon_in_the_url_does_not_split_it() {
    assert_eq!(
        browser_env_attempts("firefox %s", "http://example.com:8080/a:b"),
        vec![background("firefox", &["http://example.com:8080/a:b"])]
    );
}

#[test]
fn fallback_chain_without_kde() {
    let expected = vec![
        blocking("xdg-open", &[URL]),
        blocking("gvfs-open", &[URL]),
        blocking("gnome-open", &[URL]),
        blocking("open", &[URL]),
        blocking("kioclient", &["exec", URL]),
        background("x-www-browser", &[URL]),
    ];
    assert_eq!(fallback_chain(None, URL), expected);
    assert_eq!(fallback_chain(Some("GNOME"), URL), expected);
    assert_eq!(fallback_chain(Some(""), URL), expected);
}

#[test]
fn fallback_chain_under_kde() {
    assert_eq!(
        fallback_chain(Some("KDE"), URL),
        vec![
            blocking("xdg-open", &[URL]),
            blocking("kioclient", &["exec", URL]),
            blocking("gvfs-open", &[URL]),
            blocking("gnome-open", &[URL]),
            blocking("open", &[URL]),
            blocking("kioclient", &["exec", URL]),
            background("x-www-browser", &[URL]),
        ]
    );
}

#[test]
fn fallback_chain_hands_the_url_on_as_it_is() {
    let url = "http://example.com/a b%c%%%s";
    let chain = fallback_chain(None, url);
    assert_eq!(chain.len(), 6);
    for attempt in chain {
        assert_eq!(attempt.command.args.last().map(String::as_str), Some(url));
    }
}

#[test]
fn kde_is_named_exactly() {
    assert!(names_kde(Some("KDE")));
    assert!(!names_kde(None));
    assert!(!names_kde(Some("")));
    assert!(!names_kde(Some("kde")));
    assert!(!names_kde(Some("KDE ")));
    assert!(!names_kde(Some("KDE:GNOME")));
    assert!(!names_kde(Some("X-KDE")));
}
