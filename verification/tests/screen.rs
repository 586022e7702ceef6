use mgit::app::Repo;
use mgit::cmd::pull::screen::{style_for_kind, style_for_state, UI};
use mgit::cmd::pull::{Results, State};
use mgit::ui::{Kind, Note, Summary};

const CLEAR: &str = "\u{1b}[2J";
const HIDE: &str = "\u{1b}[?25l";
const BANNER: &str =
    "pending fetches canceled; allowing in-flight fetches to finish (hit Ctrl-c again to terminate unsafely)";

fn repo(name: &str) -> Repo {
    let path = format!("/r/{}", name);
    Repo::new("/conf", &path, &path, None, None, &[])
}

fn results(n: usize) -> Results {
    let mut results = Results::new();
    for _ in 0..n {
        results.insert(Summary::new());
    }
    results
}

fn failure() -> Summary {
    let mut summary = Summary::new();
    summary.push_note(Note::new(0, Kind::Failure, "failed"));
    summary
}

#[test]
fn styles_follow_kind_and_state() {
    assert_eq!(style_for_kind(&Kind::Neutral).paint("x").to_string(), "x");
    assert_eq!(style_for_kind(&Kind::Success).paint("x").to_string(), "\u{1b}[32mx\u{1b}[0m");
    assert_eq!(style_for_kind(&Kind::Warning).paint("x").to_string(), "\u{1b}[33mx\u{1b}[0m");
    assert_eq!(style_for_kind(&Kind::Failure).paint("x").to_string(), "\u{1b}[31mx\u{1b}[0m");
    assert_eq!(style_for_state(&State::Pending).paint("x").to_string(), "\u{1b}[34mx\u{1b}[0m");
    assert_eq!(style_for_state(&State::Canceled).paint("x").to_string(), "\u{1b}[2mx\u{1b}[0m");
    assert_eq!(style_for_state(&State::Fetching).paint("x").to_string(), "\u{1b}[36mx\u{1b}[0m");
    assert_eq!(style_for_state(&State::NoChange).paint("x").to_string(), "x");
    assert_eq!(style_for_state(&State::Success).paint("x").to_string(), "\u{1b}[32mx\u{1b}[0m");
    assert_eq!(style_for_state(&State::Warning).paint("x").to_string(), "\u{1b}[33mx\u{1b}[0m");
    assert_eq!(style_for_state(&State::Failure).paint("x").to_string(), "\u{1b}[31mx\u{1b}[0m");
}

#[test]
fn first_update_draws_in_full() {
    let alpha = repo("alpha");
    let mut ui = UI::new();
    ui.push_remote(0, &alpha, "origin");
    let results = results(1);
    assert!(ui.covered_by(&results));
    let out = ui.update(80, 24, 0, &results);
    assert_eq!(
        out,
        format!("{}\u{1b}[1;1H\u{1b}[1malpha\u{1b}[0m \u{1b}[34morigin\u{1b}[0m{}", CLEAR, HIDE)
    );
    // Nothing has changed: the next update only hides the cursor.
    assert_eq!(ui.update(80, 24, 10, &results), HIDE);
}

#[test]
fn changed_cells_are_repainted() {
    let alpha = repo("alpha");
    let mut ui = UI::new();
    ui.push_remote(0, &alpha, "origin");
    let mut results = results(1);
    ui.update(80, 24, 0, &results);
    ui.update_state(0, "origin", State::Fetching);
    assert_eq!(
        ui.update(80, 24, 10, &results),
        format!("\u{1b}[1;7H\u{1b}[36morigin\u{1b}[0m\u{1b}[1;1H\u{1b}[1malpha\u{1b}[0m{}", HIDE)
    );
    results.merge(0, &failure());
    ui.update_state(0, "origin", State::Failure);
    assert_eq!(
        ui.process_updates(&results),
        format!("\u{1b}[1;7H\u{1b}[31morigin\u{1b}[0m\u{1b}[1;1H\u{1b}[1;31malpha\u{1b}[0m{}", HIDE)
    );
    // The new state is what a full draw shows.
    assert_eq!(
        ui.draw(80, 24, &results),
        format!("{}\u{1b}[1;1H\u{1b}[1;31malpha\u{1b}[0m \u{1b}[31morigin\u{1b}[0m{}", CLEAR, HIDE)
    );
}

#[test]
fn update_for_a_remote_that_was_not_drawn_repaints_the_repository_alone() {
    let alpha = repo("alpha");
    let mut ui = UI::new();
    ui.push_remote(0, &alpha, "origin");
    let results = results(1);
    ui.update(80, 24, 0, &results);
    ui.update_state(0, "fork", State::Success);
    ui.update_state(7, "origin", State::Success);
    let wider = results_with(8);
    assert_eq!(ui.update(80, 24, 10, &wider), format!("\u{1b}[1;1H\u{1b}[1malpha\u{1b}[0m{}", HIDE));
    // The remote is known from now on.
    assert_eq!(
        ui.draw(80, 24, &wider),
        format!(
            "{}\u{1b}[1;1H\u{1b}[1malpha\u{1b}[0m \u{1b}[32mfork\u{1b}[0m \u{1b}[34morigin\u{1b}[0m{}",
            CLEAR, HIDE
        )
    );
}

fn results_with(n: usize) -> Results {
    results(n)
}

#[test]
fn rows_are_sorted_and_names_right_aligned() {
    let zeta = repo("zeta");
    let alphabet = repo("alphabet");
    let mut ui = UI::new();
    ui.push_remote(0, &zeta, "origin");
    ui.push_remote(0, &zeta, "fork");
    ui.push_remote(1, &alphabet, "origin");
    let results = results(2);
    assert_eq!(
        ui.draw(80, 24, &results),
        format!(
            "{}\u{1b}[1;1H\u{1b}[1malphabet\u{1b}[0m \u{1b}[34morigin\u{1b}[0m\u{1b}[2;1H    \u{1b}[1mzeta\u{1b}[0m \u{1b}[34mfork\u{1b}[0m \u{1b}[34morigin\u{1b}[0m{}",
            CLEAR, HIDE
        )
    );
    // The cells of the second row are where the padding put them.
    ui.update_state(0, "origin", State::Success);
    assert_eq!(
        ui.process_updates(&results),
        format!("\u{1b}[2;15H\u{1b}[32morigin\u{1b}[0m\u{1b}[2;5H\u{1b}[1mzeta\u{1b}[0m{}", HIDE)
    );
}

#[test]
fn same_names_are_sorted_by_path() {
    let one = Repo::new("/conf", "/z/same", "/z/same", None, None, &[]);
    let two = Repo::new("/conf", "/a/same", "/a/same", None, None, &[]);
    let mut ui = UI::new();
    ui.push_remote(0, &one, "one");
    ui.push_remote(1, &two, "two");
    let out = ui.draw(80, 24, &results(2));
    assert_eq!(
        out,
        format!(
            "{}\u{1b}[1;1H\u{1b}[1msame\u{1b}[0m \u{1b}[34mtwo\u{1b}[0m\u{1b}[2;1H\u{1b}[1msame\u{1b}[0m \u{1b}[34mone\u{1b}[0m{}",
            CLEAR, HIDE
        )
    );
}

#[test]
fn lines_that_do_not_fit_are_cut_with_an_ellipsis() {
    let alphabet = repo("alphabet");
    let results = results(1);
    let draw = |w: u16| -> String {
        let mut ui = UI::new();
        ui.push_remote(0, &alphabet, "origin");
        ui.draw(w, 24, &results)
    };
    // The remote fits with a column to spare.
    assert_eq!(
        draw(16),
        format!("{}\u{1b}[1;1H\u{1b}[1malphabet\u{1b}[0m \u{1b}[34morigin\u{1b}[0m{}", CLEAR, HIDE)
    );
    // The remote is cut so that a column is left for the ellipsis.
    assert_eq!(
        draw(15),
        format!(
            "{}\u{1b}[1;15H\u{2026}\u{1b}[1;1H\u{1b}[1malphabet\u{1b}[0m \u{1b}[34morigi\u{1b}[0m{}",
            CLEAR, HIDE
        )
    );
    assert_eq!(
        draw(11),
        format!(
            "{}\u{1b}[1;11H\u{2026}\u{1b}[1;1H\u{1b}[1malphabet\u{1b}[0m \u{1b}[34mo\u{1b}[0m{}",
            CLEAR, HIDE
        )
    );
    // No room for even one character of the remote.
    assert_eq!(
        draw(10),
        format!("{}\u{1b}[1;10H\u{2026}\u{1b}[1;1H\u{1b}[1malphabet\u{1b}[0m{}", CLEAR, HIDE)
    );
    // The name itself is cut.
    assert_eq!(
        draw(8),
        format!("{}\u{1b}[1;8H\u{2026}\u{1b}[1;1H\u{1b}[1malphabe\u{1b}[0m{}", CLEAR, HIDE)
    );
    assert_eq!(draw(2), format!("{}\u{1b}[1;2H\u{2026}\u{1b}[1;1H\u{1b}[1ma\u{1b}[0m{}", CLEAR, HIDE));
    // Fewer than two columns: nothing but the ellipsis.
    assert_eq!(draw(1), format!("{}\u{1b}[1;1H\u{2026}{}", CLEAR, HIDE));
    assert_eq!(draw(0), format!("{}\u{1b}[1;0H\u{2026}{}", CLEAR, HIDE));
}

#[test]
fn padding_wider_than_the_terminal_leaves_the_ellipsis() {
    let long = repo("a-very-long-name");
    let short = repo("b");
    let mut ui = UI::new();
    ui.push_remote(0, &long, "origin");
    ui.push_remote(1, &short, "origin");
    assert_eq!(
        ui.draw(10, 24, &results(2)),
        format!(
            "{}\u{1b}[1;10H\u{2026}\u{1b}[1;1H\u{1b}[1ma-very-lo\u{1b}[0m\u{1b}[2;10H\u{2026}{}",
            CLEAR, HIDE
        )
    );
}

#[test]
fn names_are_cut_between_characters() {
    let accents = Repo::new("/conf", "/r/x", "/r/x", Some("d\u{e9}p\u{f4}t"), None, &[]);
    let mut ui = UI::new();
    ui.push_remote(0, &accents, "origin");
    // The name is seven bytes wide. Three bytes are left of it in four
    // columns: they end inside a character, which is left out.
    assert_eq!(
        ui.draw(4, 24, &results(1)),
        format!("{}\u{1b}[1;4H\u{2026}\u{1b}[1;1H\u{1b}[1md\u{e9}\u{1b}[0m{}", CLEAR, HIDE)
    );
    assert_eq!(
        ui.draw(3, 24, &results(1)),
        format!("{}\u{1b}[1;3H\u{2026}\u{1b}[1;1H\u{1b}[1md\u{1b}[0m{}", CLEAR, HIDE)
    );
}

#[test]
fn token_whose_first_character_does_not_fit_is_not_shown() {
    // The name is one character, two bytes wide: one byte of it is nothing.
    let wide = Repo::new("/conf", "/r/x", "/r/x", Some("\u{e9}"), None, &[]);
    let mut ui = UI::new();
    ui.push_remote(0, &wide, "origin");
    assert_eq!(ui.draw(2, 24, &results(1)), format!("{}\u{1b}[1;2H\u{2026}{}", CLEAR, HIDE));
    assert_eq!(
        ui.draw(3, 24, &results(1)),
        format!("{}\u{1b}[1;3H\u{2026}\u{1b}[1;1H\u{1b}[1m\u{e9}\u{1b}[0m{}", CLEAR, HIDE)
    );
    // The same holds of a remote: three columns are left, one byte of the name.
    let ab = Repo::new("/conf", "/r/ab", "/r/ab", None, None, &[]);
    let mut ui = UI::new();
    ui.push_remote(0, &ab, "\u{e9}\u{e9}");
    assert_eq!(
        ui.draw(5, 24, &results(1)),
        format!("{}\u{1b}[1;5H\u{2026}\u{1b}[1;1H\u{1b}[1mab\u{1b}[0m{}", CLEAR, HIDE)
    );
    assert_eq!(
        ui.draw(6, 24, &results(1)),
        format!(
            "{}\u{1b}[1;6H\u{2026}\u{1b}[1;1H\u{1b}[1mab\u{1b}[0m \u{1b}[34m\u{e9}\u{1b}[0m{}",
            CLEAR, HIDE
        )
    );
}

fn three() -> (Repo, Repo, Repo) {
    (repo("a"), repo("b"), repo("c"))
}

#[test]
fn rows_that_do_not_fit_are_counted() {
    let (a, b, c) = three();
    let mut ui = UI::new();
    ui.push_remote(0, &a, "o");
    ui.push_remote(1, &b, "o");
    ui.push_remote(2, &c, "o");
    let results = results(3);
    let row = |y: u16, name: &str| format!("\u{1b}[{};1H\u{1b}[1m{}\u{1b}[0m \u{1b}[34mo\u{1b}[0m", y, name);
    assert_eq!(
        ui.draw(80, 3, &results),
        format!("{}{}{}{}{}", CLEAR, row(1, "a"), row(2, "b"), row(3, "c"), HIDE)
    );
    assert_eq!(
        ui.draw(80, 2, &results),
        format!("{}{}\u{1b}[2;1H\u{2026}2 more not shown{}", CLEAR, row(1, "a"), HIDE)
    );
    assert_eq!(ui.draw(80, 1, &results), format!("{}\u{1b}[1;1H\u{2026}3 more not shown{}", CLEAR, HIDE));
    // The message is cut like everything else.
    assert_eq!(
        ui.draw(5, 2, &results),
        format!("{}{}\u{1b}[2;1H\u{2026}2\u{2026}{}", CLEAR, row(1, "a"), HIDE)
    );
    // A terminal without rows shows every row where it would stand.
    assert_eq!(
        ui.draw(80, 0, &results),
        format!("{}{}{}{}{}", CLEAR, row(1, "a"), row(2, "b"), row(3, "c"), HIDE)
    );
}

#[test]
fn cancel_draws_the_banner_once() {
    let (a, b, c) = three();
    let mut ui = UI::new();
    ui.push_remote(0, &a, "o");
    ui.push_remote(1, &b, "o");
    ui.push_remote(2, &c, "o");
    let results = results(3);
    ui.update(80, 24, 0, &results);
    ui.update_state(1, "o", State::Canceled);
    let row = |y: u16, name: &str, code: &str| {
        format!("\u{1b}[{};1H\u{1b}[1m{}\u{1b}[0m \u{1b}[{}mo\u{1b}[0m", y, name, code)
    };
    let out = ui.cancel(120, 24, &results);
    assert_eq!(
        out,
        format!(
            "{}{}{}{}\u{1b}[4;1H\u{1b}[1;31m{}\u{1b}[0m\u{1b}[2;3H\u{1b}[2mo\u{1b}[0m\u{1b}[2;1H\u{1b}[1mb\u{1b}[0m{}{}",
            CLEAR,
            row(1, "a", "34"),
            row(2, "b", "34"),
            row(3, "c", "34"),
            BANNER,
            HIDE,
            HIDE
        )
    );
    assert_eq!(ui.cancel(120, 24, &results), "");
    // The banner stays, and takes the last row where the rows do not fit.
    assert_eq!(
        ui.draw(120, 3, &results),
        format!(
            "{}{}{}\u{1b}[3;1H\u{1b}[1;31m{}\u{1b}[0m{}",
            CLEAR,
            row(1, "a", "34"),
            row(2, "b", "2"),
            BANNER,
            HIDE
        )
    );
    // The banner is cut to the width.
    let narrow = ui.draw(20, 24, &results);
    assert!(narrow.contains("\u{1b}[4;1H\u{1b}[1;31mpending fetches cance\u{2026}\u{1b}[0m") == false);
    assert!(narrow.contains("\u{1b}[4;1H\u{1b}[1;31mpending fetches can\u{2026}\u{1b}[0m"));
}

#[test]
fn resize_is_debounced() {
    let alpha = repo("alpha");
    let mut ui = UI::new();
    ui.push_remote(0, &alpha, "origin");
    let results = results(1);
    assert!(ui.update(80, 24, 0, &results).starts_with(CLEAR));
    // The size changes: the timer starts and nothing is written.
    assert_eq!(ui.update(100, 30, 100, &results), "");
    ui.update_state(0, "origin", State::Fetching);
    assert_eq!(ui.update(100, 30, 300, &results), "");
    assert_eq!(ui.update(100, 30, 599, &results), "");
    // Another size starts the timer anew.
    assert_eq!(ui.update(90, 30, 600, &results), "");
    assert_eq!(ui.update(90, 30, 1099, &results), "");
    // The size has settled: the dashboard is drawn anew, with what has changed meanwhile.
    assert_eq!(
        ui.update(90, 30, 1100, &results),
        format!("{}\u{1b}[1;1H\u{1b}[1malpha\u{1b}[0m \u{1b}[34morigin\u{1b}[0m\u{1b}[1;7H\u{1b}[36morigin\u{1b}[0m\u{1b}[1;1H\u{1b}[1malpha\u{1b}[0m{}", CLEAR, HIDE)
    );
    assert_eq!(ui.update(90, 30, 1110, &results), HIDE);
    // A clock that goes back does not settle anything.
    assert_eq!(ui.update(80, 30, 2000, &results), "");
    assert_eq!(ui.update(80, 30, 1000, &results), "");
    assert!(ui.update(80, 30, 2500, &results).starts_with(CLEAR));
}

#[test]
fn cleanup_clears_the_screen_and_shows_the_cursor() {
    let mut ui = UI::new();
    assert_eq!(ui.cleanup(), "\u{1b}[2J\u{1b}[?25h\n");
}

#[test]
fn dashboard_may_ask_for_more_than_the_results_hold() {
    let alpha = repo("alpha");
    let mut ui = UI::new();
    ui.push_remote(3, &alpha, "origin");
    assert!(!ui.covered_by(&results(3)));
    assert!(ui.covered_by(&results(4)));
    ui.update_state(9, "origin", State::Pending);
    assert!(!ui.covered_by(&results(4)));
    assert!(ui.covered_by(&results(10)));
}

#[test]
fn full_draw_does_not_depend_on_the_order_in_which_repositories_came() {
    let names = ["delta", "alpha", "charlie", "bravo"];
    let repos: Vec<Repo> = names.iter().map(|n| repo(n)).collect();
    let mut forward = UI::new();
    for (id, r) in repos.iter().enumerate() {
        forward.push_remote(id, r, "origin");
        forward.push_remote(id, r, "backup");
    }
    let mut backward = UI::new();
    for (id, r) in repos.iter().rev().enumerate() {
        backward.push_remote(id, r, "backup");
        backward.push_remote(id, r, "origin");
    }
    let results = results(4);
    for (w, h) in [(80, 24), (12, 24), (80, 3), (7, 2)] {
        let one = forward.draw(w, h, &results);
        let two = backward.draw(w, h, &results);
        assert_eq!(one, two);
        // Drawing again gives the same bytes.
        assert_eq!(one, forward.draw(w, h, &results));
    }
    assert!(forward.draw(80, 24, &results).contains("\u{1b}[1;1H  \u{1b}[1malpha\u{1b}[0m"));
}
