//! `config` subcommand: what is shown of the configuration of a repository.
use std::collections::hash_map::RandomState;
use vstd::prelude::*;
use vstd::string::*;
use ansi_term::{Colour, Style};
use indexmap::IndexMap;
use crate::app::{bold_of, default_symbol, shown_name, Repo, RepoView};
use crate::term::{paint, painted, plain};
use crate::text::{byte_len, width};

verus! {

/// Name of the command (`config`).
pub const NAME: &'static str = "config";

/// One-line description of the command (`config`).
pub const ABOUT: &'static str = "Prints configuration as interpreted by mgit";

/// Name of the argument for `-t/--tag`.
pub const TAG_ARG: &'static str = "TAG";

/// Name of the argument for `-v/--verbose`.
pub const VERBOSE_ARG: &'static str = "VERBOSE";

// ----- the map of settings --------------------------------------------------
/// `indexmap::IndexMap`: a hash map that iterates in insertion order.
#[verifier::external_type_specification]
#[verifier::external_body]
#[verifier::reject_recursive_types(K)]
#[verifier::reject_recursive_types(V)]
#[verifier::reject_recursive_types(S)]
pub struct ExIndexMap<K, V, S>(IndexMap<K, V, S>);

/// The keys of a map of settings with their values, in the order in which
/// the map iterates.
pub uninterp spec fn settings(map: IndexMap<String, String, RandomState>) -> Seq<(Seq<char>, Seq<char>)>;

/// The position of the first entry with the key `key`, or the number of
/// entries where there is none.
pub open spec fn find_key(entries: Seq<(Seq<char>, Seq<char>)>, key: Seq<char>) -> int
    decreases entries.len(),
{
    if entries.len() == 0 {
        0
    } else if entries[0].0 == key {
        0
    } else {
        1 + find_key(entries.drop_first(), key)
    }
}

/// The entries after `key` has been given `value`: an entry with the key
/// keeps its place and takes the value; else the pair comes last.
pub open spec fn with_setting(
    entries: Seq<(Seq<char>, Seq<char>)>,
    key: Seq<char>,
    value: Seq<char>,
) -> Seq<(Seq<char>, Seq<char>)> {
    let at = find_key(entries, key);
    if at < entries.len() {
        entries.update(at, (key, value))
    } else {
        entries.push((key, value))
    }
}

/// `IndexMap::new`: a map without entries.
#[verifier::external_body]
fn settings_new() -> (map: IndexMap<String, String, RandomState>)
    ensures
        settings(map) == Seq::<(Seq<char>, Seq<char>)>::empty(),
{
    IndexMap::new()
}

/// `IndexMap::insert`: an equivalent key keeps its place in the order and
/// takes the value; a new pair is inserted last in order.
#[verifier::external_body]
fn settings_insert(map: &mut IndexMap<String, String, RandomState>, key: &str, value: &str)
    ensures
        settings(*final(map)) == with_setting(settings(*old(map)), key@, value@),
{
    map.insert(key.to_owned(), value.to_owned());
}

/// `IndexMap::len`: the number of pairs in the map.
#[verifier::external_body]
fn settings_len(map: &IndexMap<String, String, RandomState>) -> (n: usize)
    ensures
        n == settings(*map).len(),
{
    map.len()
}

/// `IndexMap::get_index`: the pair at a position of the order, for the
/// positions below the length.
#[verifier::external_body]
fn settings_get(map: &IndexMap<String, String, RandomState>, index: usize) -> (r: Option<(&str, &str)>)
    ensures
        r is Some == (index < settings(*map).len()),
        r matches Some(pair) ==> pair.0@ == settings(*map)[index as int].0 && pair.1@ == settings(
            *map,
        )[index as int].1,
{
    match map.get_index(index) {
        Some((key, value)) => Some((key.as_str(), value.as_str())),
        None => None,
    }
}

// ----- what is shown --------------------------------------------------------
/// The tags, separated by commas.
pub open spec fn tags_joined(tags: Seq<Seq<char>>) -> Seq<char>
    decreases tags.len(),
{
    if tags.len() == 0 {
        Seq::empty()
    } else if tags.len() == 1 {
        tags[0]
    } else {
        tags_joined(tags.drop_last()) + ", "@ + tags.last()
    }
}

/// How the tags of a repository are shown.
pub open spec fn tags_shown(tags: Seq<Seq<char>>) -> Seq<char> {
    if tags.len() == 0 {
        "<none set>"@
    } else {
        tags_joined(tags)
    }
}

/// The setting `key` with `value` where there is a value.
pub open spec fn setting_if(key: Seq<char>, value: Option<Seq<char>>) -> Seq<(Seq<char>, Seq<char>)> {
    match value {
        Some(value) => seq![(key, value)],
        None => Seq::empty(),
    }
}

/// What is shown of a repository: the configuration file and the full path;
/// name and symbol where they are set, or their defaults where all is
/// shown; the tags where there are any, or where all is shown.
pub open spec fn info_of(repo: RepoView, verbose: bool) -> Seq<(Seq<char>, Seq<char>)> {
    seq![("config"@, repo.config_path), ("path"@, repo.full_path)] + setting_if(
        "name"@,
        match repo.name {
            Some(name) => Some(name),
            None => if verbose {
                Some(shown_name(repo) + " (default)"@)
            } else {
                None
            },
        },
    ) + setting_if(
        "symbol"@,
        match repo.symbol {
            Some(symbol) => Some(symbol),
            None => if verbose {
                Some(default_symbol() + " (default)"@)
            } else {
                None
            },
        },
    ) + setting_if(
        "tags"@,
        if verbose || repo.tags.len() > 0 {
            Some(tags_shown(repo.tags))
        } else {
            None
        },
    )
}

/// Returns how the tags `tags` are shown.
pub fn show_tags(tags: &Vec<&str>) -> (r: String)
    ensures
        r@ == tags_shown(crate::app::str_views(tags@)),
{
    let ghost all = crate::app::str_views(tags@);
    if tags.len() == 0 {
        return String::from_str("<none set>");
    }
    let mut s = String::new();
    let mut i: usize = 0;
    assert(all.take(0) =~= Seq::empty());
    while i < tags.len()
        invariant
            i <= tags.len(),
            all == crate::app::str_views(tags@),
            s@ == tags_joined(all.take(i as int)),
        decreases tags.len() - i,
    {
        let ghost before = s@;
        assert(all.take(i + 1).drop_last() =~= all.take(i as int));
        assert(all.take(i + 1).last() == tags@[i as int]@);
        if i != 0 {
            s.append(", ");
        }
        s.append(tags[i]);
        if i == 0 {
            assert(s@ =~= tags@[0]@);
        }
        i = i + 1;
    }
    assert(all.take(i as int) =~= all);
    s
}

/// Buffers what is shown of `repo` into a map that iterates in insertion
/// order.
pub fn info(repo: &Repo, verbose: bool) -> (r: IndexMap<String, String, RandomState>)
    ensures
        settings(r) == info_of(repo@, verbose),
{
    proof {
        lemma_keys_differ();
    }
    let mut map = settings_new();
    settings_insert(&mut map, "config", repo.config_path());
    let ghost one = settings(map);
    assert(one =~= seq![("config"@, repo@.config_path)]);
    settings_insert(&mut map, "path", repo.full_path());
    let ghost two = settings(map);
    proof {
        reveal_with_fuel(find_key, 3);
        assert(one.drop_first() =~= Seq::empty());
        assert(two =~= seq![("config"@, repo@.config_path), ("path"@, repo@.full_path)]);
    }
    let mut name_default = repo.name_or_default().to_owned();
    name_default.append(" (default)");
    let mut symbol_default = repo.symbol_or_default().to_owned();
    symbol_default.append(" (default)");
    let tags_vec = repo.tags();
    let tags = show_tags(&tags_vec);
    let ghost named = setting_if(
        "name"@,
        match repo@.name {
            Some(name) => Some(name),
            None => if verbose {
                Some(shown_name(repo@) + " (default)"@)
            } else {
                None
            },
        },
    );
    match repo.name() {
        Some(name) => {
            proof {
                lemma_new_key(two, "name"@);
            }
            settings_insert(&mut map, "name", name);
        },
        None => {
            if verbose {
                proof {
                    lemma_new_key(two, "name"@);
                }
                settings_insert(&mut map, "name", name_default.as_str());
            }
        },
    }
    let ghost three = settings(map);
    assert(three =~= two + named);
    let ghost marked = setting_if(
        "symbol"@,
        match repo@.symbol {
            Some(symbol) => Some(symbol),
            None => if verbose {
                Some(default_symbol() + " (default)"@)
            } else {
                None
            },
        },
    );
    match repo.symbol() {
        Some(symbol) => {
            proof {
                lemma_new_key(three, "symbol"@);
            }
            settings_insert(&mut map, "symbol", symbol);
        },
        None => {
            if verbose {
                proof {
                    lemma_new_key(three, "symbol"@);
                }
                settings_insert(&mut map, "symbol", symbol_default.as_str());
            }
        },
    }
    let ghost four = settings(map);
    assert(four =~= three + marked);
    if verbose || tags_vec.len() > 0 {
        proof {
            lemma_new_key(four, "tags"@);
        }
        settings_insert(&mut map, "tags", tags.as_str());
    }
    assert(settings(map) =~= info_of(repo@, verbose));
    map
}

/// The keys are five different texts.
proof fn lemma_keys_differ()
    ensures
        "config"@ != "path"@,
        "config"@ != "name"@,
        "config"@ != "symbol"@,
        "config"@ != "tags"@,
        "path"@ != "name"@,
        "path"@ != "symbol"@,
        "path"@ != "tags"@,
        "name"@ != "symbol"@,
        "name"@ != "tags"@,
        "symbol"@ != "tags"@,
{
    reveal_strlit("config");
    reveal_strlit("path");
    reveal_strlit("name");
    reveal_strlit("symbol");
    reveal_strlit("tags");
    assert("config"@.len() == 6 && "config"@[0] == 'c');
    assert("path"@.len() == 4 && "path"@[0] == 'p');
    assert("name"@.len() == 4 && "name"@[0] == 'n');
    assert("symbol"@.len() == 6 && "symbol"@[0] == 's');
    assert("tags"@.len() == 4 && "tags"@[0] == 't');
}

/// A key that no entry has is not found.
pub proof fn lemma_new_key(entries: Seq<(Seq<char>, Seq<char>)>, key: Seq<char>)
    requires
        forall|i: int| 0 <= i < entries.len() ==> (#[trigger] entries[i]).0 != key,
    ensures
        find_key(entries, key) == entries.len(),
    decreases entries.len(),
{
    if entries.len() > 0 {
        assert(entries[0].0 != key);
        let rest = entries.drop_first();
        assert forall|i: int| 0 <= i < rest.len() implies (#[trigger] rest[i]).0 != key by {
            assert(rest[i] == entries[i + 1]);
        }
        lemma_new_key(rest, key);
    }
}

// ----- printing -------------------------------------------------------------
/// The light horizontal bars before a key: one, and as many as the key is
/// shorter than six columns, then a space.
pub open spec fn bars(key: Seq<char>) -> Seq<char> {
    Seq::new(
        (1 + if width(key) < 6 {
            6 - width(key)
        } else {
            0
        }) as nat,
        |i: int| '\u{2500}',
    ) + " "@
}

/// The line of the entry at position `i` among `count`: the last entry is
/// set off by a corner, the others by a tee; then bars, the key and a colon
/// in blue, and the value.
pub open spec fn info_line(key: Seq<char>, value: Seq<char>, last: bool) -> Seq<char> {
    painted(
        Style { foreground: Some(Colour::Blue), ..plain() },
        "  "@ + (if last {
            "\u{2516}"@
        } else {
            "\u{2520}"@
        }) + bars(key) + key + ": "@,
    ) + value + "\n"@
}

/// The lines of the first `upto` entries.
pub open spec fn info_lines(entries: Seq<(Seq<char>, Seq<char>)>, upto: nat) -> Seq<char>
    decreases upto,
{
    if upto == 0 {
        Seq::empty()
    } else {
        info_lines(entries, (upto - 1) as nat) + info_line(
            entries[upto - 1].0,
            entries[upto - 1].1,
            upto == entries.len(),
        )
    }
}

/// What is printed for a repository: its path as the user gave it, in bold
/// purple, then the entries.
pub open spec fn info_text(path: Seq<char>, entries: Seq<(Seq<char>, Seq<char>)>) -> Seq<char> {
    painted(bold_of(Colour::Purple), path) + "\n"@ + info_lines(entries, entries.len())
}

/// Returns what is printed for the repository at `path`, of which `info` is
/// shown.
pub fn print_info(path: &str, info: &IndexMap<String, String, RandomState>) -> (r: String)
    ensures
        r@ == info_text(path@, settings(*info)),
{
    proof {
        reveal_strlit("\u{2500}");
    }
    let ghost entries = settings(*info);
    let mut out = paint(Colour::Purple.bold(), path);
    out.append("\n");
    let ghost head = out@;
    let n = settings_len(info);
    let mut i: usize = 0;
    assert(out@ =~= head + info_lines(entries, 0));
    while i < n
        invariant
            i <= n,
            n == entries.len(),
            entries == settings(*info),
            out@ == head + info_lines(entries, i as nat),
            "\u{2500}"@ == seq!['\u{2500}'],
        decreases n - i,
    {
        let ghost before = out@;
        match settings_get(info, i) {
            Some((key, value)) => {
                let k = byte_len(key);
                let more: usize = if k < 6 {
                    6 - k
                } else {
                    0
                };
                let mut h = String::from_str("\u{2500}");
                let mut j: usize = 0;
                assert(h@ =~= Seq::new(1nat, |x: int| '\u{2500}'));
                while j < more
                    invariant
                        j <= more <= 6,
                        h@ == Seq::new((1 + j) as nat, |x: int| '\u{2500}'),
                        "\u{2500}"@ == seq!['\u{2500}'],
                    decreases more - j,
                {
                    h.append("\u{2500}");
                    assert(h@ =~= Seq::new((1 + j + 1) as nat, |x: int| '\u{2500}'));
                    j = j + 1;
                }
                h.append(" ");
                assert(h@ == bars(key@));
                let v = if i == n - 1 {
                    "\u{2516}"
                } else {
                    "\u{2520}"
                };
                let mut label = String::from_str("  ");
                label.append(v);
                label.append(h.as_str());
                label.append(key);
                label.append(": ");
                let lead = paint(Colour::Blue.normal(), label.as_str());
                out.append(lead.as_str());
                out.append(value);
                out.append("\n");
                assert(out@ =~= before + info_line(key@, value@, i + 1 == n));
            },
            None => {},
        }
        i = i + 1;
    }
    out
}

} // verus!
