use ansi_term::Colour;
use mgit::app::{
    describe, escapes_fit, load, Action, Config, ConfigError, Control, Error, Field, Invocation, Iter, Located,
    Matches, Repo, Section, TagIter,
};

fn repo(path: &str, name: Option<&str>, tags: &[&str]) -> Repo {
    Repo::new("/home/me/.mgit/repos.conf", path, &format!("/abs{}", path), name, None, tags)
}

fn config(entries: &[(&str, Option<&str>, Option<&str>)]) -> Config {
    let mut config = Config::new();
    for (path, name, tags) in entries {
        let section = Section {
            path: (*path).to_owned(),
            name: name.map(|n| n.to_owned()),
            symbol: None,
            tags: tags.map(|t| t.to_owned()),
        };
        let located = Located::At { full_path: format!("/abs{}", path), opened: Ok(()) };
        assert!(config.register("/conf", &section, &located).is_ok());
    }
    config
}

fn keys(iter: &mut Iter) -> Vec<String> {
    let mut out = Vec::new();
    while let Some((key, _)) = iter.next() {
        out.push(key.to_owned());
    }
    out
}

#[test]
fn error_keeps_its_message() {
    let error = Error::new("something went wrong");
    assert_eq!(error.message(), "something went wrong");
}

#[test]
fn repo_keeps_what_it_was_given() {
    let r = Repo::new("/c/repos.conf", "~/src/mgit", "/home/me/src/mgit", Some("mgit!"), Some("*"), &["a", "b"]);
    assert_eq!(r.config_path(), "/c/repos.conf");
    assert_eq!(r.path(), "~/src/mgit");
    assert_eq!(r.full_path(), "/home/me/src/mgit");
    assert_eq!(r.name(), Some("mgit!"));
    assert_eq!(r.symbol(), Some("*"));
    assert_eq!(r.tags(), vec!["a", "b"]);
    assert_eq!(r.name_or_default(), "mgit!");
    assert_eq!(r.symbol_or_default(), "*");
    assert!(r.has_tag("a"));
    assert!(r.has_tag("b"));
    assert!(!r.has_tag("c"));
    assert!(!r.has_tag(""));
}

#[test]
fn repos_are_equal_where_their_paths_are() {
    let one = Repo::new("/c/a.conf", "~/src/mgit", "/home/me/src/mgit", Some("one"), None, &[]);
    let two = Repo::new("/c/b.conf", "~/src/mgit", "/elsewhere", None, Some("*"), &["t"]);
    let three = Repo::new("/c/a.conf", "~/src/other", "/home/me/src/mgit", Some("one"), None, &[]);
    assert!(one == two);
    assert!(one != three);
}

#[test]
fn repo_without_name_is_shown_by_its_path() {
    let r = Repo::new("/c", "~/src/mgit", "/home/me/src/mgit", None, None, &[]);
    assert_eq!(r.name(), None);
    assert_eq!(r.symbol(), None);
    assert_eq!(r.name_or_default(), "mgit");
    assert_eq!(r.symbol_or_default(), "\u{2022}");
    assert!(r.tags().is_empty());
    assert_eq!(repo("/", None, &[]).name_or_default(), "<root>");
    assert_eq!(repo("/srv/git/", None, &[]).name_or_default(), "git");
    assert_eq!(repo("plain", None, &[]).name_or_default(), "plain");
    assert_eq!(repo("/a/b/.", None, &[]).name_or_default(), "b");
}

#[test]
fn repo_needs_a_name_to_be_shown_under() {
    assert!(Repo::can_be_named(None, "/a/b"));
    assert!(Repo::can_be_named(None, "/"));
    assert!(Repo::can_be_named(Some("x"), ".."));
    assert!(!Repo::can_be_named(None, ".."));
    assert!(!Repo::can_be_named(None, "/a/.."));
    assert!(!Repo::can_be_named(None, ""));
    assert!(Repo::try_new("/c", "..", "/x", None, None, &[]).is_none());
    let named = Repo::try_new("/c", "..", "/x", Some("up"), None, &["t"]).unwrap();
    assert_eq!(named.name_or_default(), "up");
    assert_eq!(named.tags(), vec!["t"]);
}

#[test]
fn repos_are_yielded_sorted_by_name_then_path() {
    let config = config(&[
        ("/z/same", None, None),
        ("/x/zulu", Some("alpha"), None),
        ("/a/same", None, None),
        ("/m/bravo", None, None),
    ]);
    assert_eq!(config.len(), 4);
    let mut iter = config.repos();
    assert_eq!(iter.len(), 4);
    let (key, first) = iter.next().unwrap();
    assert_eq!(key, "alpha");
    assert_eq!(first.path(), "/x/zulu");
    assert_eq!(iter.len(), 3);
    let (_, second) = iter.next().unwrap();
    assert_eq!(second.path(), "/m/bravo");
    let (key, third) = iter.next().unwrap();
    assert_eq!(key, "same");
    assert_eq!(third.path(), "/a/same");
    let (_, fourth) = iter.next().unwrap();
    assert_eq!(fourth.path(), "/z/same");
    assert!(iter.next().is_none());
    assert!(iter.next().is_none());
}

#[test]
fn iteration_can_go_by_path() {
    let config = config(&[("/z/a", None, None), ("/x/c", None, None), ("/y/b", None, None)]);
    assert_eq!(keys(&mut config.repos()), vec!["a", "b", "c"]);
    assert_eq!(keys(&mut config.repos().iter_field(Field::Path)), vec!["/z/a", "/y/b", "/x/c"]);
    assert_eq!(keys(&mut config.repos().sorted_by(Field::Path)), vec!["c", "b", "a"]);
    assert_eq!(
        keys(&mut config.repos().iter_field(Field::Path).sorted_by(Field::Path)),
        vec!["/x/c", "/y/b", "/z/a"]
    );
    // The last setting counts.
    assert_eq!(
        keys(
            &mut config
                .repos()
                .iter_field(Field::Path)
                .iter_field(Field::Name)
                .sorted_by(Field::Name)
                .sorted_by(Field::Path)
        ),
        vec!["c", "b", "a"]
    );
    // Once the first item is out, the order is settled.
    let mut iter = config.repos();
    assert_eq!(iter.next().unwrap().0, "a");
    let mut iter = iter.sorted_by(Field::Path).iter_field(Field::Path);
    assert_eq!(keys(&mut iter), vec!["/y/b", "/x/c"]);
}

#[test]
fn iteration_can_be_limited_to_a_tag() {
    let config = config(&[
        ("/r/c", None, Some("work")),
        ("/r/a", None, Some("play\twork")),
        ("/r/b", None, Some("play")),
        ("/r/d", None, None),
    ]);
    assert_eq!(keys(&mut config.repos().tagged("work")), vec!["a", "c"]);
    assert_eq!(keys(&mut config.repos().tagged("play")), vec!["a", "b"]);
    assert_eq!(keys(&mut config.repos().tagged("none")), Vec::<String>::new());
    assert_eq!(config.repos().tagged("play").len(), 2);
    assert_eq!(config.get(1).unwrap().path(), "/r/a");
    assert!(config.get(4).is_none());
}

#[test]
fn tags_are_iterated_one_by_one() {
    let config = config(&[("/r/a", None, Some("x y")), ("/r/b", None, Some("y")), ("/r/c", None, None)]);
    let mut tags = TagIter::new(&config, Some(vec!["y".to_owned(), "z".to_owned(), "x".to_owned()]));
    let (tag, mut repos) = tags.next().unwrap();
    assert_eq!(tag, Some("y".to_owned()));
    assert_eq!(keys(&mut repos), vec!["a", "b"]);
    let (tag, mut repos) = tags.next().unwrap();
    assert_eq!(tag, Some("z".to_owned()));
    assert!(keys(&mut repos).is_empty());
    let (tag, mut repos) = tags.next().unwrap();
    assert_eq!(tag, Some("x".to_owned()));
    assert_eq!(keys(&mut repos), vec!["a"]);
    assert!(tags.next().is_none());
    assert!(tags.next().is_none());

    let mut all = TagIter::new(&config, None);
    let (tag, mut repos) = all.next().unwrap();
    assert_eq!(tag, None);
    assert_eq!(keys(&mut repos), vec!["a", "b", "c"]);
    assert!(all.next().is_none());

    let mut none = TagIter::new(&config, Some(Vec::new()));
    assert!(none.next().is_none());
}

#[test]
fn invocation_iterates_the_tags_that_were_given() {
    let mut matches = Matches::new();
    matches.push("VERBOSE", Vec::new());
    matches.push("TAG", vec!["y".to_owned()]);
    let invocation = Invocation::new(
        Control::new(Action::Print),
        config(&[("/r/a", None, Some("x y")), ("/r/b", None, None)]),
        matches,
    );
    assert!(invocation.matches().is_present("VERBOSE"));
    assert!(invocation.matches().is_present("TAG"));
    assert!(!invocation.matches().is_present("CONCURRENT"));
    assert_eq!(invocation.matches().value_of("TAG"), Some("y"));
    assert_eq!(invocation.matches().value_of("VERBOSE"), None);
    assert_eq!(invocation.matches().value_of("CONCURRENT"), None);
    assert_eq!(invocation.matches().values_of("TAG"), Some(&vec!["y".to_owned()]));
    assert!(invocation.matches().values_of("OTHER").is_none());
    assert_eq!(invocation.config().len(), 2);
    let mut tags = invocation.iter_tags("TAG");
    let (tag, mut repos) = tags.next().unwrap();
    assert_eq!(tag, Some("y".to_owned()));
    assert_eq!(keys(&mut repos), vec!["a"]);
    assert!(tags.next().is_none());
    let mut all = invocation.iter_tags("OTHER");
    let (tag, repos) = all.next().unwrap();
    assert_eq!(tag, None);
    assert_eq!(repos.len(), 2);
    assert_eq!(invocation.control().warning("w").text, "\u{1b}[1;33mwarning\u{1b}[0m w\n");
}

#[test]
fn first_match_of_an_argument_counts() {
    let mut matches = Matches::new();
    matches.push("TAG", vec!["a".to_owned(), "b".to_owned()]);
    matches.push("TAG", vec!["c".to_owned()]);
    assert_eq!(matches.value_of("TAG"), Some("a"));
    assert_eq!(matches.values_of("TAG").unwrap().len(), 2);
}

#[test]
fn warning_action_is_named() {
    assert!(Action::parse("ignore") == Some(Action::Ignore));
    assert!(Action::parse("print") == Some(Action::Print));
    assert!(Action::parse("fatal") == Some(Action::Fatal));
    assert!(Action::parse("Fatal").is_none());
    assert!(Action::parse("").is_none());
}

#[test]
fn messages_are_printed_under_their_label() {
    let control = Control::new(Action::Print);
    assert_eq!(control.print("warning", Colour::Yellow, "one line"), "\u{1b}[1;33mwarning\u{1b}[0m one line\n");
    assert_eq!(
        control.print("warning", Colour::Yellow, "first\nsecond\r\nthird\n"),
        "\u{1b}[1;33mwarning\u{1b}[0m first\n\u{1b}[1;33m       \u{1b}[0m second\n\u{1b}[1;33m       \u{1b}[0m third\n"
    );
    assert_eq!(control.print("x", Colour::Red, ""), "");
    assert_eq!(control.print("x", Colour::Red, "\n"), "\u{1b}[1;31mx\u{1b}[0m \n");
    assert_eq!(
        control.print("ab", Colour::Red, "a\n\nb\r"),
        "\u{1b}[1;31mab\u{1b}[0m a\n\u{1b}[1;31m  \u{1b}[0m \n\u{1b}[1;31m  \u{1b}[0m b\r\n"
    );
    assert_eq!(control.fatal("no repositories configured"), "\u{1b}[1;31m  fatal\u{1b}[0m no repositories configured\n");
}

#[test]
fn warning_goes_by_the_action() {
    let ignored = Control::new(Action::Ignore).warning("careful");
    assert_eq!(ignored.text, "");
    assert!(!ignored.fatal);
    let printed = Control::new(Action::Print).warning("careful");
    assert_eq!(printed.text, "\u{1b}[1;33mwarning\u{1b}[0m careful\n");
    assert!(!printed.fatal);
    let fatal = Control::new(Action::Fatal).warning("careful");
    assert_eq!(
        fatal.text,
        "\u{1b}[1;33mwarning\u{1b}[0m careful\n\u{1b}[1;31m  fatal\u{1b}[0m encountered warning, warning action is 'fatal'\n"
    );
    assert!(fatal.fatal);
}

#[test]
fn config_error_is_described() {
    let full = ConfigError::new("/c/repos.conf", Some("~/r"), "failed to open repository", Some("not a repository"));
    assert_eq!(full.config_path(), "/c/repos.conf");
    assert_eq!(full.repo_path(), Some("~/r"));
    assert_eq!(full.message(), "failed to open repository");
    assert_eq!(full.cause(), Some("not a repository"));
    assert_eq!(
        describe(&full),
        "\u{1b}[1mfailed to open repository\u{1b}[0m\nnot a repository\nin config at path \u{1b}[1;36m/c/repos.conf\u{1b}[0m\nfor repo  at path \u{1b}[1;34m~/r\u{1b}[0m"
    );
    let bare = ConfigError::new("/c", None, "path is not a file or directory", None);
    assert_eq!(bare.repo_path(), None);
    assert_eq!(bare.cause(), None);
    assert_eq!(
        describe(&bare),
        "\u{1b}[1mpath is not a file or directory\u{1b}[0m\nin config at path \u{1b}[1;36m/c\u{1b}[0m"
    );
}

#[test]
fn sections_of_a_file_define_repositories() {
    let text = "top = level\n[~/src/a]\nname = A\ntags = x  y\n\n[/r/b]\nsymbol=*\nother = ignored\n";
    let mut found = load(text).ok().unwrap();
    found.sort_by(|a, b| a.path.cmp(&b.path));
    assert_eq!(found.len(), 2);
    assert_eq!(found[0].path, "/r/b");
    assert_eq!(found[0].name, None);
    assert_eq!(found[0].symbol, Some("*".to_owned()));
    assert_eq!(found[0].tags, None);
    assert_eq!(found[1].path, "~/src/a");
    assert_eq!(found[1].name, Some("A".to_owned()));
    assert_eq!(found[1].symbol, None);
    assert_eq!(found[1].tags, Some("x  y".to_owned()));
    assert!(load("").ok().unwrap().is_empty());
    assert!(load("only = general\n").ok().unwrap().is_empty());
}

#[test]
fn escape_that_names_no_character_is_refused() {
    assert!(escapes_fit(""));
    assert!(escapes_fit("[a]\nname = \\x0041\n"));
    assert!(escapes_fit("\\xD7FF \\xE000 \\xD80 \\xD8G0 \\XD800 xD800"));
    for half in ["\\xD800", "\\xdfff", "\\xDbA9", "\\xd8Ff"] {
        assert!(!escapes_fit(half));
        let text = format!("[a]\nname = {}\n", half);
        assert!(!escapes_fit(&text));
        assert_eq!(load(&text).err(), Some("Unknown character.".to_owned()));
        // Wherever it stands.
        assert_eq!(load(&format!("; {}\n[a]\n", half)).err(), Some("Unknown character.".to_owned()));
    }
    // An escape that names a character is the parser's to read.
    let found = load("[a]\nname = \\x0041b\n").ok().unwrap();
    assert_eq!(found[0].name, Some("Ab".to_owned()));
    let found = load("[a]\nname = \\xE000\n").ok().unwrap();
    assert_eq!(found[0].name, Some("\u{e000}".to_owned()));
    assert!(load("[a]\nname = \\xZZZZ\n").err().unwrap().ends_with("Unknown character."));
}

#[test]
fn text_that_is_no_configuration_is_refused() {
    let error = load("[unclosed\n").err().unwrap();
    assert!(!error.is_empty());
}

#[test]
fn section_is_taken_into_the_configuration() {
    let mut config = Config::new();
    let section = Section {
        path: "~/src/a".to_owned(),
        name: Some("A".to_owned()),
        symbol: Some("@".to_owned()),
        tags: Some(" x\ty  z ".to_owned()),
    };
    let located = Located::At { full_path: "/home/me/src/a".to_owned(), opened: Ok(()) };
    assert!(config.register("/c/one.conf", &section, &located).is_ok());
    assert_eq!(config.len(), 1);
    let r = config.get(0).unwrap();
    assert_eq!(r.config_path(), "/c/one.conf");
    assert_eq!(r.path(), "~/src/a");
    assert_eq!(r.full_path(), "/home/me/src/a");
    assert_eq!(r.name(), Some("A"));
    assert_eq!(r.symbol(), Some("@"));
    assert_eq!(r.tags(), vec!["x", "y", "z"]);
}

fn refusal(config: &mut Config, path: &str, located: Located) -> ConfigError {
    let section = Section { path: path.to_owned(), name: None, symbol: None, tags: None };
    let before = config.len();
    let error = config.register("/c/two.conf", &section, &located).err().unwrap();
    assert_eq!(config.len(), before);
    assert_eq!(error.config_path(), "/c/two.conf");
    assert_eq!(error.repo_path(), Some(path));
    error
}

#[test]
fn section_is_refused_with_its_reason() {
    let mut config = config(&[("/r/a", None, None)]);

    let error = refusal(&mut config, "~nobody/x", Located::Unresolved("failed to look up user".to_owned()));
    assert_eq!(error.message(), "failed to resolve repo path");
    assert_eq!(error.cause(), Some("failed to look up user"));

    let error = refusal(&mut config, "/r/odd", Located::NotText);
    assert_eq!(error.message(), "absolute path contains invalid unicode");
    assert_eq!(error.cause(), None);

    // The same repository under another path of the user's.
    let error = refusal(
        &mut config,
        "/link/a",
        Located::At { full_path: "/abs/r/a".to_owned(), opened: Err("never looked at".to_owned()) },
    );
    assert_eq!(error.message(), "repo is already configured (ignoring new definition)");
    assert_eq!(error.cause(), Some("first configured in /conf"));

    let error = refusal(
        &mut config,
        "/r/b",
        Located::At { full_path: "/abs/r/b".to_owned(), opened: Err("not a git repository".to_owned()) },
    );
    assert_eq!(error.message(), "failed to open repository");
    assert_eq!(error.cause(), Some("not a git repository"));

    let error = refusal(&mut config, "..", Located::At { full_path: "/abs".to_owned(), opened: Ok(()) });
    assert_eq!(error.message(), "failed to get file_name from repo path");
    assert_eq!(error.cause(), None);
    assert_eq!(config.len(), 1);
}
