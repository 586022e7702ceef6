use ansi_term::Colour;
use mgit::config::{load, Config, Placed, Repo};
use mgit::ext::{enabled, graph_file_name, index, index_link};
use mgit::invocation::{Control, Invocation, WarningAction};
use mgit::order::{key_before, stable_order, SortKey};
use mgit::text::{byte_len, clip, decimal_string, has_prefix, same_text, str_less};

fn key(group: usize, first: &str, second: &str) -> SortKey {
    SortKey { group, first: first.to_owned(), second: second.to_owned() }
}

#[test]
fn numbers_are_written_in_decimal() {
    assert_eq!(decimal_string(0), "0");
    assert_eq!(decimal_string(7), "7");
    assert_eq!(decimal_string(10), "10");
    assert_eq!(decimal_string(1234567890), "1234567890");
    assert_eq!(decimal_string(usize::MAX), usize::MAX.to_string());
}

fn less(a: &str, b: &str) -> bool {
    key_before(&key(0, a, ""), &key(0, b, ""))
}

#[test]
fn texts_are_compared() {
    assert!(less("a", "b"));
    assert!(!less("b", "a"));
    assert!(!less("a", "a"));
    assert!(less("", "a"));
    assert!(!less("a", ""));
    assert!(less("a", "ab"));
    assert!(less("Z", "a"));
    assert!(less("z", "\u{e9}"));
    assert!(less("\u{ffff}", "\u{10000}"));
    // The second text counts where the first is the same.
    assert!(key_before(&key(0, "a", "x"), &key(0, "a", "y")));
    assert!(!key_before(&key(0, "a", "y"), &key(0, "a", "x")));
    assert!(key_before(&key(0, "z", "z"), &key(1, "a", "a")));
    assert!(same_text("abc", "abc"));
    assert!(!same_text("abc", "abd"));
    assert!(!same_text("abc", "ab"));
}

#[test]
fn strings_are_ordered_and_begin_as_the_standard_library_says() {
    let texts = ["", "a", "A", "ab", "abc", "b", "z", "\u{e9}", "\u{e9}a", "\u{ffff}", "\u{10000}", "\u{7f}", "\u{80}"];
    for a in texts {
        for b in texts {
            assert_eq!(str_less(a, b), a < b);
            assert_eq!(has_prefix(a, b), a.starts_with(b));
            assert_eq!(less(a, b), a < b);
        }
    }
    assert!(has_prefix("origin/master", "origin"));
    assert!(!has_prefix("orig", "origin"));
    assert!(!has_prefix("fork/origin", "origin"));
}

#[test]
fn texts_are_clipped_between_characters() {
    assert_eq!(byte_len(""), 0);
    assert_eq!(byte_len("abc"), 3);
    assert_eq!(byte_len("d\u{e9}p\u{f4}t"), 7);
    assert_eq!(byte_len("\u{2026}"), 3);
    assert_eq!(clip("alphabet", 100), "alphabet");
    assert_eq!(clip("alphabet", 8), "alphabet");
    assert_eq!(clip("alphabet", 7), "alphabe");
    assert_eq!(clip("alphabet", 0), "");
    assert_eq!(clip("d\u{e9}p\u{f4}t", 3), "d\u{e9}");
    assert_eq!(clip("d\u{e9}p\u{f4}t", 2), "d");
    assert_eq!(clip("\u{1f600}x", 3), "");
    assert_eq!(clip("\u{1f600}x", 4), "\u{1f600}");
    assert_eq!(clip("\u{1f600}x", 5), "\u{1f600}x");
}

#[test]
fn keys_are_sorted_stably() {
    let keys = vec![
        key(1, "b", ""),
        key(0, "z", "b"),
        key(1, "a", ""),
        key(0, "z", "a"),
        key(1, "b", ""),
        key(0, "", "zzz"),
    ];
    assert_eq!(stable_order(&keys), vec![5, 3, 1, 2, 0, 4]);
    assert_eq!(stable_order(&Vec::new()), Vec::<usize>::new());
    assert!(key_before(&keys[1], &keys[0]));
    assert!(key_before(&keys[3], &keys[1]));
    assert!(!key_before(&keys[0], &keys[4]));
    assert!(!key_before(&keys[4], &keys[0]));
}

#[test]
fn labels_are_painted_in_every_colour() {
    let control = mgit::app::Control::new(mgit::app::Action::Print);
    for (colour, code) in [
        (Colour::Black, "30"),
        (Colour::Red, "31"),
        (Colour::Green, "32"),
        (Colour::Yellow, "33"),
        (Colour::Blue, "34"),
        (Colour::Purple, "35"),
        (Colour::Cyan, "36"),
        (Colour::White, "37"),
        (Colour::Fixed(0), "38;5;0"),
        (Colour::Fixed(200), "38;5;200"),
        (Colour::RGB(1, 20, 255), "38;2;1;20;255"),
    ] {
        assert_eq!(control.print("x", colour, "m"), format!("\u{1b}[1;{}mx\u{1b}[0m m\n", code));
    }
}

#[test]
fn sample_configuration_reports_four_errors() {
    let mut config = mgit::cfg::Config::new();
    let errors = config.read("~/.mgit");
    assert_eq!(errors.len(), 4);
    for error in &errors {
        assert_eq!(error.config_path(), "~/.mgit");
    }
    assert_eq!(errors[0].message(), "something went wrong before parsing");
    assert_eq!(errors[0].repo_path(), None);
    assert_eq!(errors[0].cause(), None);
    assert_eq!(errors[1].message(), "another pre-parsing warning");
    assert_eq!(errors[1].cause(), Some("this is the reason for that one"));
    assert_eq!(errors[2].message(), "and here we have a problem inside the config");
    assert_eq!(errors[2].repo_path(), Some("~/mgit"));
    assert_eq!(errors[2].cause(), None);
    assert_eq!(errors[3].message(), "this is a fully specified error, with all the things");
    assert_eq!(errors[3].repo_path(), Some("~/mgit"));
    assert_eq!(errors[3].cause(), Some("underlying cause for the failure inside the config"));
    let error = mgit::cfg::Error::new("c", Some("r"), "m", None);
    assert_eq!(error.config_path(), "c");
    assert_eq!(error.repo_path(), Some("r"));
    assert_eq!(error.message(), "m");
    assert_eq!(error.cause(), None);
}

#[test]
fn repositories_are_kept_by_path() {
    assert_eq!(mgit::config::Error::new("broken").to_string(), "broken");
    let mut all = Config::new();
    all.insert(Repo::new("/c", "/z/mgit", Some("b"), Some("a comment"), None, Some("x y")));
    all.insert(Repo::new("/c", "/y/same", None, None, Some("*"), Some("y")));
    all.insert(Repo::new("/c", "/x/same", None, None, None, None));
    all.insert(Repo::new("/c", "/w/a", None, None, None, Some("  ")));
    assert_eq!(all.repos().len(), 4);
    assert_eq!(all.paths(), vec!["/w/a", "/z/mgit", "/x/same", "/y/same"]);
    assert_eq!(all.paths_for_tag("y"), vec!["/z/mgit", "/y/same"]);
    assert_eq!(all.paths_for_tag("x"), vec!["/z/mgit"]);
    assert!(all.paths_for_tag("none").is_empty());
    let repo = all.repo("/z/mgit").unwrap();
    assert_eq!(repo.config_path(), "/c");
    assert_eq!(repo.path(), "/z/mgit");
    assert_eq!(repo.name(), Some("b".to_owned()));
    assert_eq!(repo.name_or_default(), "b");
    assert_eq!(repo.comment(), Some("a comment".to_owned()));
    assert_eq!(repo.symbol(), None);
    assert_eq!(repo.symbol_or_default(), "\u{2022}");
    assert_eq!(repo.tags(), &["x".to_owned(), "y".to_owned()]);
    assert!(repo.has_tag("x"));
    assert!(!repo.has_tag("z"));
    let other = all.repo("/y/same").unwrap();
    assert_eq!(other.name(), None);
    assert_eq!(other.name_or_default(), "same");
    assert_eq!(other.symbol_or_default(), "*");
    assert!(all.repo("/w/a").unwrap().tags().is_empty());
    assert!(all.repo("/nowhere").is_none());
    // A repository with the path of another takes its place.
    let renamed = Repo::new("/d", "/y/same", Some("renamed"), None, None, None);
    assert!(all.accept(renamed, &Placed::Opened).is_ok());
    assert_eq!(all.repos().len(), 4);
    assert_eq!(all.repos()[1].config_path(), "/d");
    assert_eq!(all.paths(), vec!["/w/a", "/z/mgit", "/y/same", "/x/same"]);
    assert!(Repo::can_be_named(None, "/a"));
    assert!(!Repo::can_be_named(None, "/"));
    assert!(Repo::try_new("/c", "/", None, None, None, None).is_none());
    assert!(Repo::try_new("/c", "/", Some("root"), None, None, None).is_some());
}

#[test]
fn repository_is_kept_out_with_its_reason() {
    let mut all = Config::new();
    let refused = |all: &mut Config, placed: Placed| -> String {
        let repo = Repo::new("/c/one.conf", "~/src/a", None, None, None, None);
        let error = all.accept(repo, &placed).err().unwrap();
        assert!(all.repos().is_empty());
        error.to_string()
    };
    assert_eq!(
        refused(&mut all, Placed::Unplaced("no such user".to_owned())),
        "failed to get absolute path for '~/src/a' (no such user)"
    );
    assert_eq!(
        refused(&mut all, Placed::Taken { absolute: "/home/me/src/a".to_owned(), by: "/c/zero.conf".to_owned() }),
        "repo at '/home/me/src/a' already configured in config file '/c/zero.conf' (ignoring this definition)"
    );
    assert_eq!(
        refused(&mut all, Placed::Unopened { absolute: "/home/me/src/a".to_owned(), why: "not a repository".to_owned() }),
        "failed to open repository at '/home/me/src/a' (not a repository)"
    );
}

#[test]
fn entries_of_a_file_define_repositories() {
    let text = "[/r/b]\ncomment = second\n[~/a]\nname=A\nsymbol = *\ntags = x y\n";
    let mut found = load(text).ok().unwrap();
    found.sort_by(|a, b| a.path.cmp(&b.path));
    assert_eq!(found.len(), 2);
    assert_eq!(found[0].path, "/r/b");
    assert_eq!(found[0].comment, Some("second".to_owned()));
    assert_eq!(found[0].name, None);
    assert_eq!(found[1].path, "~/a");
    assert_eq!(found[1].name, Some("A".to_owned()));
    assert_eq!(found[1].comment, None);
    assert_eq!(found[1].symbol, Some("*".to_owned()));
    assert_eq!(found[1].tags, Some("x y".to_owned()));
    assert!(load("[unclosed\n").is_err());
}

#[test]
fn warnings_and_errors_of_an_invocation() {
    let ignore = Control::new(WarningAction::Ignore).warning("w");
    assert_eq!(ignore.text, "");
    assert!(!ignore.exit);
    let print = Control::new(WarningAction::Print).warning("w");
    assert_eq!(print.text, "\u{1b}[1;33mwarning\u{1b}[0m w\n");
    assert!(!print.exit);
    let exit = Control::new(WarningAction::Exit).warning("w");
    assert_eq!(exit.text, "\u{1b}[1;33mwarning\u{1b}[0m w\n");
    assert!(exit.exit);
    let control = Control::new(WarningAction::Print);
    assert_eq!(control.error("broken"), "  \u{1b}[1;31merror\u{1b}[0m broken\n");
    let all = Config::new();
    let mut matches = mgit::app::Matches::new();
    matches.push("VERBOSE", Vec::new());
    let invocation = Invocation::new(&all, &matches, &control);
    assert!(invocation.config().repos().is_empty());
    assert!(invocation.matches().is_present("VERBOSE"));
    assert_eq!(invocation.control().error("x"), "  \u{1b}[1;31merror\u{1b}[0m x\n");
}

#[test]
fn flame_graphs_are_indexed() {
    assert!(enabled(None));
    assert!(enabled(Some("no")));
    assert!(!enabled(Some("yes")));
    assert!(!enabled(Some("")));
    assert!(!enabled(Some("No")));
    assert_eq!(graph_file_name(Some("init"), 3), "init.html");
    assert_eq!(graph_file_name(None, 12), "12.html");
    assert_eq!(index_link("a.html"), "\n    <br><a href=\"a.html\">a.html</a>");
    assert_eq!(index(&Vec::new()), "<!DOCTYPE html>\n<html>\n  <head></head>\n  <body>\n  </body>\n</html>");
    assert_eq!(
        index(&vec!["a.html".to_owned(), "7.html".to_owned()]),
        "<!DOCTYPE html>\n<html>\n  <head></head>\n  <body>\n    <br><a href=\"a.html\">a.html</a>\n    <br><a href=\"7.html\">7.html</a>\n  </body>\n</html>"
    );
}
