//! Top-level application state: errors, repository descriptors and the
//! configuration that holds them.
use vstd::prelude::*;
use vstd::std_specs::cmp::PartialEqSpecImpl;
use vstd::string::*;
use ansi_term::{Colour, Style};
use crate::order::{
    is_stable_order, key_views, lemma_ordering, ordering, stable_order, KeyView, SortKey,
};
use crate::term::{paint, painted, plain};
use crate::text::{byte_len, same_text, width};

verus! {

// ----- Error ----------------------------------------------------------------
/// Represents a basic error.
pub struct Error {
    /// Message describing the error.
    message: String,
}

impl View for Error {
    type V = Seq<char>;

    closed spec fn view(&self) -> Seq<char> {
        self.message@
    }
}

impl Error {
    /// Creates and returns a new `Error` instance.
    pub fn new(message: &str) -> (r: Self)
        ensures
            r@ == message@,
    {
        Self { message: message.to_owned() }
    }

    /// Returns the message describing the error.
    pub fn message(&self) -> (r: &str)
        ensures
            r@ == self@,
    {
        self.message.as_str()
    }
}

// ----- Repo -----------------------------------------------------------------
/// The final component of a path as `std::path::Path::file_name` gives it on
/// a Unix system, where it is valid text; `None` where the path has none.
pub uninterp spec fn file_name_of(path: Seq<char>) -> Option<Seq<char>>;

/// `std::path::Path::file_name` of `path`, as text. The standard library
/// documents it as the final component of the path, absent where the path
/// terminates in `..`; the contract only gives the result its name.
#[verifier::external_body]
pub(crate) fn file_name(path: &str) -> (r: Option<&str>)
    ensures
        r is Some == file_name_of(path@) is Some,
        r is Some ==> file_name_of(path@) == Some(r->0@),
{
    match std::path::Path::new(path).file_name() {
        Some(name) => name.to_str(),
        None => None,
    }
}

/// Symbol to use if not configured by end user.
pub open spec fn default_symbol() -> Seq<char> {
    "\u{2022}"@
}

/// Name shown for a repository at the root of the filesystem.
pub open spec fn root_name() -> Seq<char> {
    "<root>"@
}

/// The name under which a repository is shown: the configured name, else
/// `<root>` for the root path, else the final component of the path, if it
/// has one.
pub open spec fn display_name(name: Option<Seq<char>>, path: Seq<char>) -> Option<Seq<char>> {
    match name {
        Some(name) => Some(name),
        None => if path == "/"@ {
            Some(root_name())
        } else {
            file_name_of(path)
        },
    }
}

/// Mathematical value of a `Repo`.
pub ghost struct RepoView {
    pub config_path: Seq<char>,
    pub path: Seq<char>,
    pub full_path: Seq<char>,
    pub name: Option<Seq<char>>,
    pub symbol: Option<Seq<char>>,
    pub tags: Seq<Seq<char>>,
}

/// Configuration for an individual repository.
pub struct Repo {
    /// Path to the configuration file in which the repo was defined.
    config_path: String,
    /// Path to the repository itself, as specified by the user.
    path: String,
    /// Fully-resolved, absolute path to the repository.
    full_path: String,
    /// Optional human-friendly name for the repo.
    name: Option<String>,
    /// Optional "symbol" for the repo – the character that precedes the repo
    /// name in status listings.
    symbol: Option<String>,
    /// Optional tags associated with the repo.
    tags: Vec<String>,
}

/// The values of a list of texts.
pub open spec fn text_views(texts: Seq<String>) -> Seq<Seq<char>> {
    texts.map_values(|t: String| t@)
}

/// The values of a list of borrowed texts.
pub open spec fn str_views(texts: Seq<&str>) -> Seq<Seq<char>> {
    texts.map_values(|t: &str| t@)
}

/// The value of an optional text.
pub open spec fn option_view(text: Option<String>) -> Option<Seq<char>> {
    match text {
        Some(t) => Some(t@),
        None => None,
    }
}

/// The value of an optional borrowed text.
pub open spec fn option_str_view(text: Option<&str>) -> Option<Seq<char>> {
    match text {
        Some(t) => Some(t@),
        None => None,
    }
}

/// Copies an optional text.
pub fn option_to_owned(text: Option<&str>) -> (r: Option<String>)
    ensures
        option_view(r) == option_str_view(text),
{
    match text {
        Some(t) => Some(t.to_owned()),
        None => None,
    }
}

/// Lends an optional text.
pub fn option_as_str(text: &Option<String>) -> (r: Option<&str>)
    ensures
        option_str_view(r) == option_view(*text),
{
    match text {
        Some(t) => Some(t.as_str()),
        None => None,
    }
}

impl View for Repo {
    type V = RepoView;

    closed spec fn view(&self) -> RepoView {
        RepoView {
            config_path: self.config_path@,
            path: self.path@,
            full_path: self.full_path@,
            name: option_view(self.name),
            symbol: option_view(self.symbol),
            tags: text_views(self.tags@),
        }
    }
}

impl Repo {
    /// Every repository has a name to be shown under.
    #[verifier::type_invariant]
    spec fn named(self) -> bool {
        display_name(option_view(self.name), self.path@) is Some
    }

    /// Returns whether a repository with this `name` and `path` has a name to
    /// be shown under.
    pub fn can_be_named(name: Option<&str>, path: &str) -> (r: bool)
        ensures
            r == display_name(option_str_view(name), path@) is Some,
    {
        if name.is_some() {
            true
        } else if same_text(path, "/") {
            true
        } else {
            file_name(path).is_some()
        }
    }

    /// Creates and returns a new `Repo` instance.
    pub fn new(
        config_path: &str,
        path: &str,
        full_path: &str,
        name: Option<&str>,
        symbol: Option<&str>,
        tags: &[&str],
    ) -> (r: Self)
        requires
            display_name(option_str_view(name), path@) is Some,
        ensures
            r@ == (RepoView {
                config_path: config_path@,
                path: path@,
                full_path: full_path@,
                name: option_str_view(name),
                symbol: option_str_view(symbol),
                tags: str_views(tags@),
            }),
    {
        let mut owned: Vec<String> = Vec::new();
        let mut i: usize = 0;
        while i < tags.len()
            invariant
                i <= tags.len(),
                text_views(owned@) =~= str_views(tags@.take(i as int)),
            decreases tags.len() - i,
        {
            let ghost before = owned@;
            owned.push(tags[i].to_owned());
            assert(text_views(owned@) =~= text_views(before).push(tags@[i as int]@));
            assert(str_views(tags@.take(i + 1)) =~= str_views(tags@.take(i as int)).push(
                tags@[i as int]@,
            ));
            i = i + 1;
        }
        assert(tags@.take(i as int) =~= tags@);
        Self {
            config_path: config_path.to_owned(),
            path: path.to_owned(),
            full_path: full_path.to_owned(),
            name: option_to_owned(name),
            symbol: option_to_owned(symbol),
            tags: owned,
        }
    }

    /// Creates a new `Repo` instance where it has a name to be shown under,
    /// and none where it has not.
    pub fn try_new(
        config_path: &str,
        path: &str,
        full_path: &str,
        name: Option<&str>,
        symbol: Option<&str>,
        tags: &[&str],
    ) -> (r: Option<Self>)
        ensures
            r is Some == display_name(option_str_view(name), path@) is Some,
            r is Some ==> r->0@ == (RepoView {
                config_path: config_path@,
                path: path@,
                full_path: full_path@,
                name: option_str_view(name),
                symbol: option_str_view(symbol),
                tags: str_views(tags@),
            }),
    {
        if Self::can_be_named(name, path) {
            Some(Self::new(config_path, path, full_path, name, symbol, tags))
        } else {
            None
        }
    }

    /// Returns path of configuration file in which this repo was defined.
    pub fn config_path(&self) -> (r: &str)
        ensures
            r@ == self@.config_path,
    {
        self.config_path.as_str()
    }

    /// Returns the path to the repo, as specified by the end user.
    pub fn path(&self) -> (r: &str)
        ensures
            r@ == self@.path,
    {
        self.path.as_str()
    }

    /// Returns the full path to the repo.
    pub fn full_path(&self) -> (r: &str)
        ensures
            r@ == self@.full_path,
    {
        self.full_path.as_str()
    }

    /// Returns the (optionally-set) name of the repository.
    pub fn name(&self) -> (r: Option<&str>)
        ensures
            option_str_view(r) == self@.name,
    {
        option_as_str(&self.name)
    }

    /// Returns the (optionally-set) symbol the repository.
    pub fn symbol(&self) -> (r: Option<&str>)
        ensures
            option_str_view(r) == self@.symbol,
    {
        option_as_str(&self.symbol)
    }

    /// Returns tags associated with this repository.
    pub fn tags(&self) -> (r: Vec<&str>)
        ensures
            str_views(r@) == self@.tags,
    {
        let mut r: Vec<&str> = Vec::new();
        let mut i: usize = 0;
        while i < self.tags.len()
            invariant
                i <= self.tags.len(),
                str_views(r@) =~= text_views(self.tags@.take(i as int)),
            decreases self.tags.len() - i,
        {
            let ghost before = r@;
            r.push(self.tags[i].as_str());
            assert(str_views(r@) =~= str_views(before).push(self.tags@[i as int]@));
            assert(text_views(self.tags@.take(i + 1)) =~= text_views(self.tags@.take(i as int)).push(
                self.tags@[i as int]@,
            ));
            i = i + 1;
        }
        assert(self.tags@.take(i as int) =~= self.tags@);
        r
    }

    /// Whether the repository carries the tag `tag`.
    pub fn has_tag(&self, tag: &str) -> (r: bool)
        ensures
            r == self@.tags.contains(tag@),
    {
        let mut i: usize = 0;
        while i < self.tags.len()
            invariant
                i <= self.tags.len(),
                forall|k: int| 0 <= k < i ==> (#[trigger] self@.tags[k]) != tag@,
            decreases self.tags.len() - i,
        {
            if same_text(self.tags[i].as_str(), tag) {
                assert(self@.tags[i as int] == tag@);
                return true;
            }
            i = i + 1;
        }
        false
    }

    /// Returns `name` if set, otherwise the default value as computed from the
    /// `path`.
    pub fn name_or_default(&self) -> (r: &str)
        ensures
            Some(r@) == display_name(self@.name, self@.path),
    {
        proof {
            use_type_invariant(self);
        }
        match &self.name {
            Some(name) => name.as_str(),
            None => {
                if same_text(self.path.as_str(), "/") {
                    "<root>"
                } else {
                    match file_name(self.path.as_str()) {
                        Some(name) => name,
                        None => vstd::pervasive::unreached(),
                    }
                }
            },
        }
    }

    /// Returns `symbol` if set, otherwise the default symbol, a bullet.
    pub fn symbol_or_default(&self) -> (r: &str)
        ensures
            r@ == (match self@.symbol {
                Some(symbol) => symbol,
                None => default_symbol(),
            }),
    {
        match &self.symbol {
            Some(symbol) => symbol.as_str(),
            None => "\u{2022}",
        }
    }
}


impl PartialEq for Repo {
    /// Checks equality by comparing user-specified paths.
    ///
    /// When obtained via the `Config` instance (the only "supported" way to
    /// use `Repo` instances), paths are guaranteed to be unique.
    fn eq(&self, other: &Self) -> (r: bool) {
        self.path.eq(&other.path)
    }
}

impl PartialEqSpecImpl for Repo {
    open spec fn obeys_eq_spec() -> bool {
        true
    }

    open spec fn eq_spec(&self, other: &Self) -> bool {
        self@.path == other@.path
    }
}

impl Eq for Repo {

}

// ----- Field ----------------------------------------------------------------
/// `Repo` field, used to specify what to sort by or iterate through with
/// `Iter`.
#[derive(Clone, Copy, Debug, PartialEq, Eq, Structural)]
pub enum Field {
    /// `Repo.path()`
    Path,
    /// `Repo.name_or_default()`
    Name,
}

/// The name under which a repository is shown.
pub open spec fn shown_name(repo: RepoView) -> Seq<char> {
    display_name(repo.name, repo.path)->0
}

/// The value of `field` for `repo`.
pub open spec fn field_of(repo: RepoView, field: Field) -> Seq<char> {
    match field {
        Field::Name => shown_name(repo),
        Field::Path => repo.path,
    }
}

/// What repositories are ordered by when they are sorted by `field`: by
/// name, then path; or by path alone.
pub open spec fn repo_keys(repos: Seq<RepoView>, field: Field) -> Seq<KeyView> {
    repos.map_values(
        |r: RepoView|
            match field {
                Field::Name => KeyView { group: 0, first: shown_name(r), second: r.path },
                Field::Path => KeyView { group: 0, first: r.path, second: Seq::empty() },
            },
    )
}

/// The repositories sorted by `field`, those that agree in it in the order
/// in which they stand.
pub open spec fn in_order(repos: Seq<RepoView>, field: Field) -> Seq<RepoView> {
    Seq::new(repos.len(), |k: int| repos[ordering(repo_keys(repos, field))[k] as int])
}

/// The repositories among `repos` that carry the tag `tag`, in their order.
pub open spec fn with_tag(repos: Seq<RepoView>, tag: Seq<char>) -> Seq<RepoView>
    decreases repos.len(),
{
    if repos.len() == 0 {
        Seq::empty()
    } else if repos.last().tags.contains(tag) {
        with_tag(repos.drop_last(), tag).push(repos.last())
    } else {
        with_tag(repos.drop_last(), tag)
    }
}

/// The values of a list of borrowed repositories.
pub open spec fn repo_views(repos: Seq<&Repo>) -> Seq<RepoView> {
    repos.map_values(|r: &Repo| r@)
}

/// The values of a list of repositories.
pub open spec fn owned_repo_views(repos: Seq<Repo>) -> Seq<RepoView> {
    repos.map_values(|r: Repo| r@)
}

// ----- Iter -----------------------------------------------------------------
/// Mathematical value of an `Iter`.
pub ghost struct IterView {
    /// The repositories that are still to be yielded.
    pub repos: Seq<RepoView>,
    /// `Field` to yield as the "key."
    pub iter_field: Field,
    /// `Field` by which to sort (always ascending).
    pub sort_field: Field,
    /// Indicates whether `repos` is sorted.
    pub sorted: bool,
}

impl IterView {
    /// The repositories in the order in which they are yielded.
    pub open spec fn settled(self) -> Seq<RepoView> {
        if self.sorted {
            self.repos
        } else {
            in_order(self.repos, self.sort_field)
        }
    }
}

/// Iterator over a sorted vec of `Repo` instances.
///
/// `Iter` is meant to be "set up" using chained method calls, transferring
/// ownership through each call. The `Iter` instance itself is obtained from
/// `Config.repos()`.
///
/// The underlying vector is not actually sorted until the first item is
/// consumed.
pub struct Iter<'a> {
    /// `Vec` of `Repo` references to iterate through. Items are popped off the
    /// front of this vec as the iterator is consumed.
    repos: Vec<&'a Repo>,
    /// `Field` to yield as the "key."
    iter_field: Field,
    /// `Field` by which to sort (always ascending).
    sort_field: Field,
    /// Indicates whether `repos` is sorted.
    sorted: bool,
}

impl<'a> View for Iter<'a> {
    type V = IterView;

    closed spec fn view(&self) -> IterView {
        IterView {
            repos: repo_views(self.repos@),
            iter_field: self.iter_field,
            sort_field: self.sort_field,
            sorted: self.sorted,
        }
    }
}

/// Returns the keys by which `repos` are sorted by `field`.
fn sort_keys(repos: &Vec<&Repo>, field: Field) -> (keys: Vec<SortKey>)
    ensures
        key_views(keys@) == repo_keys(repo_views(repos@), field),
{
    let ghost views = repo_views(repos@);
    let mut keys: Vec<SortKey> = Vec::new();
    let mut i: usize = 0;
    while i < repos.len()
        invariant
            i <= repos.len(),
            views == repo_views(repos@),
            key_views(keys@) =~= repo_keys(views.take(i as int), field),
        decreases repos.len() - i,
    {
        let ghost before = keys@;
        let repo = repos[i];
        let key = match field {
            Field::Name => SortKey {
                group: 0,
                first: repo.name_or_default().to_owned(),
                second: repo.path().to_owned(),
            },
            Field::Path => SortKey { group: 0, first: repo.path().to_owned(), second: String::new() },
        };
        let ghost value = key@;
        keys.push(key);
        assert(key_views(keys@) =~= key_views(before).push(value));
        assert(views.take(i + 1) =~= views.take(i as int).push(views[i as int]));
        assert(repo_keys(views.take(i + 1), field) =~= repo_keys(views.take(i as int), field).push(value));
        i = i + 1;
    }
    assert(views.take(i as int) =~= views);
    keys
}

impl<'a> Iter<'a> {
    /// Creates and returns a new `Iter` for `repos`.
    pub fn new(repos: Vec<&'a Repo>) -> (r: Self)
        ensures
            r@ == (IterView {
                repos: repo_views(repos@),
                iter_field: Field::Name,
                sort_field: Field::Name,
                sorted: false,
            }),
    {
        Self { repos, iter_field: Field::Name, sort_field: Field::Name, sorted: false }
    }

    /// Sets `Field` that will be yielded as the iterator "key."
    pub fn iter_field(self, field: Field) -> (r: Self)
        ensures
            r@ == (IterView { iter_field: field, ..self@ }),
    {
        Self {
            repos: self.repos,
            iter_field: field,
            sort_field: self.sort_field,
            sorted: self.sorted,
        }
    }

    /// Sets `Field` that controls sort order.
    pub fn sorted_by(self, field: Field) -> (r: Self)
        ensures
            r@ == (IterView { sort_field: field, ..self@ }),
    {
        Self {
            repos: self.repos,
            iter_field: self.iter_field,
            sort_field: field,
            sorted: self.sorted,
        }
    }

    /// Limits iteration to `Repo` instances with the tag `tag`.
    pub fn tagged(self, tag: &str) -> (r: Self)
        ensures
            r@ == (IterView { repos: with_tag(self@.repos, tag@), ..self@ }),
    {
        let ghost views = repo_views(self.repos@);
        let mut repos: Vec<&'a Repo> = Vec::new();
        let mut i: usize = 0;
        assert(views.take(0) =~= Seq::empty());
        while i < self.repos.len()
            invariant
                i <= self.repos.len(),
                views == repo_views(self.repos@),
                repo_views(repos@) =~= with_tag(views.take(i as int), tag@),
            decreases self.repos.len() - i,
        {
            let ghost before = repos@;
            assert(views.take(i + 1).drop_last() =~= views.take(i as int));
            assert(views.take(i + 1).last() == self.repos@[i as int]@);
            let repo = self.repos[i];
            if repo.has_tag(tag) {
                repos.push(repo);
                assert(repo_views(repos@) =~= repo_views(before).push(repo@));
            }
            i = i + 1;
        }
        assert(views.take(i as int) =~= views);
        Self {
            repos,
            iter_field: self.iter_field,
            sort_field: self.sort_field,
            sorted: self.sorted,
        }
    }

    /// Returns the number of repos in the `Iter`.
    pub fn len(&self) -> (r: usize)
        ensures
            r == self@.repos.len(),
    {
        self.repos.len()
    }

    /// Sorts the repositories by the sort field, if that has not been done.
    fn settle(&mut self)
        ensures
            final(self)@ == (IterView { repos: old(self)@.settled(), sorted: true, ..old(self)@ }),
    {
        if !self.sorted {
            let ghost views = repo_views(self.repos@);
            let keys = sort_keys(&self.repos, self.sort_field);
            let order = stable_order(&keys);
            proof {
                lemma_ordering(repo_keys(views, self.sort_field), order@);
            }
            let mut sorted: Vec<&'a Repo> = Vec::new();
            let mut k: usize = 0;
            while k < order.len()
                invariant
                    k <= order.len(),
                    order@.len() == self.repos@.len(),
                    views == repo_views(self.repos@),
                    is_stable_order(repo_keys(views, self.sort_field), order@),
                    ordering(repo_keys(views, self.sort_field)) == order@,
                    repo_views(sorted@) =~= in_order(views, self.sort_field).take(k as int),
                decreases order.len() - k,
            {
                let ghost before = sorted@;
                assert(order@[k as int] < self.repos@.len());
                let repo = self.repos[order[k]];
                sorted.push(repo);
                assert(repo_views(sorted@) =~= repo_views(before).push(repo@));
                k = k + 1;
            }
            assert(in_order(views, self.sort_field).take(k as int) =~= in_order(views, self.sort_field));
            self.repos = sorted;
            self.sorted = true;
        }
    }

    /// Returns the next item in the iterator.
    ///
    /// If this is the first item, the underlying vector is sorted. The "key"
    /// yielded depends on the value of `iter_field`. The value is always a
    /// reference to a `Repo`.
    pub fn next(&mut self) -> (r: Option<(&'a str, &'a Repo)>)
        ensures
            final(self)@ == (IterView {
                repos: if old(self)@.settled().len() == 0 {
                    old(self)@.settled()
                } else {
                    old(self)@.settled().drop_first()
                },
                sorted: true,
                ..old(self)@
            }),
            r is Some == (old(self)@.settled().len() > 0),
            r matches Some(item) ==> item.1@ == old(self)@.settled()[0] && item.0@ == field_of(
                item.1@,
                old(self)@.iter_field,
            ),
    {
        self.settle();
        if self.repos.len() == 0 {
            None
        } else {
            let ghost before = self.repos@;
            let repo = self.repos.remove(0);
            assert(repo_views(self.repos@) =~= repo_views(before).drop_first());
            let key = match self.iter_field {
                Field::Name => repo.name_or_default(),
                Field::Path => repo.path(),
            };
            Some((key, repo))
        }
    }
}

// ----- Config ---------------------------------------------------------------
/// Configuration key that specifies repo name.
pub const NAME_KEY: &'static str = "name";

/// Configuration key that specifies repo symbol.
pub const SYMBOL_KEY: &'static str = "symbol";

/// Configuration key that specifies repo tags.
pub const TAGS_KEY: &'static str = "tags";

/// Configuration as specified by the end user.
pub struct Config {
    /// `Vec` of `Repo` instances defined in the configuration.
    repos: Vec<Repo>,
}

impl View for Config {
    type V = Seq<RepoView>;

    closed spec fn view(&self) -> Seq<RepoView> {
        owned_repo_views(self.repos@)
    }
}

impl Config {
    /// Creates and returns a new, empty `Config` instance.
    pub fn new() -> (r: Self)
        ensures
            r@ == Seq::<RepoView>::empty(),
    {
        let r = Self { repos: Vec::new() };
        assert(r@ =~= Seq::<RepoView>::empty());
        r
    }

    /// Returns the number of repositories in the configuration.
    pub fn len(&self) -> (r: usize)
        ensures
            r == self@.len(),
    {
        self.repos.len()
    }

    /// Returns the repository at position `i`, if there is one.
    pub fn get(&self, i: usize) -> (r: Option<&Repo>)
        ensures
            r is Some == (i < self@.len()),
            r is Some ==> r->0@ == self@[i as int],
    {
        if i < self.repos.len() {
            Some(&self.repos[i])
        } else {
            None
        }
    }

    /// Returns an `Iter` instance over the repos in the configuration.
    pub fn repos(&self) -> (r: Iter<'_>)
        ensures
            r@ == (IterView {
                repos: self@,
                iter_field: Field::Name,
                sort_field: Field::Name,
                sorted: false,
            }),
    {
        let mut refs: Vec<&Repo> = Vec::new();
        let mut i: usize = 0;
        while i < self.repos.len()
            invariant
                i <= self.repos.len(),
                repo_views(refs@) =~= self@.take(i as int),
            decreases self.repos.len() - i,
        {
            let ghost before = refs@;
            let repo = &self.repos[i];
            refs.push(repo);
            assert(repo_views(refs@) =~= repo_views(before).push(repo@));
            assert(self@.take(i + 1) =~= self@.take(i as int).push(self.repos@[i as int]@));
            i = i + 1;
        }
        assert(self@.take(i as int) =~= self@);
        Iter::new(refs)
    }
}

// ----- reading --------------------------------------------------------------
/// `ini::Ini`: a parsed configuration file, a map of sections, each a map
/// of settings.
#[verifier::external_type_specification]
#[verifier::external_body]
pub struct ExIni(ini::Ini);

/// The sections of a parsed configuration file, each with its settings. The
/// section without a name holds the settings that stand before the first
/// section.
pub uninterp spec fn ini_sections(ini: ini::Ini) -> Map<Option<Seq<char>>, Map<Seq<char>, Seq<char>>>;

/// What `ini::Ini::load_from_str` makes of a text: the sections with their
/// settings, or the text of the parse error.
pub uninterp spec fn ini_parsed(text: Seq<char>) -> Result<
    Map<Option<Seq<char>>, Map<Seq<char>, Seq<char>>>,
    Seq<char>,
>;

/// The words of a text as `str::split_whitespace` gives them: what stands
/// between whitespace, in order.
pub uninterp spec fn words_of(text: Seq<char>) -> Seq<Seq<char>>;

/// Whether `b` is a hexadecimal digit.
pub open spec fn is_hex(b: u8) -> bool {
    (48 <= b <= 57) || (65 <= b <= 70) || (97 <= b <= 102)
}

/// Whether the bytes from position `i` on write an escape that names no
/// character: a backslash, an `x`, and four hexadecimal digits for a number
/// from D800 to DFFF, which is the half of a surrogate pair.
pub open spec fn surrogate_at(bytes: Seq<u8>, i: int) -> bool {
    &&& 0 <= i
    &&& i + 6 <= bytes.len()
    &&& bytes[i] == 92
    &&& bytes[i + 1] == 120
    &&& (bytes[i + 2] == 68 || bytes[i + 2] == 100)
    &&& (bytes[i + 3] == 56 || bytes[i + 3] == 57 || (65 <= bytes[i + 3] <= 70) || (97 <= bytes[i + 3]
        <= 102))
    &&& is_hex(bytes[i + 4])
    &&& is_hex(bytes[i + 5])
}

/// Whether every escape of the form `\x` with four hexadecimal digits,
/// wherever in the text it stands, names a character.
pub open spec fn escapes_name_characters(bytes: Seq<u8>) -> bool {
    forall|i: int| !surrogate_at(bytes, i)
}

/// What is reported of a text with an escape that names no character.
pub open spec fn unknown_character() -> Seq<char> {
    "Unknown character."@
}

/// What loading makes of the text of a configuration file: a text with an
/// escape that names no character is refused; every other text is parsed.
pub open spec fn loaded(text: Seq<char>) -> Result<
    Map<Option<Seq<char>>, Map<Seq<char>, Seq<char>>>,
    Seq<char>,
> {
    if escapes_name_characters(vstd::utf8::encode_utf8(text)) {
        ini_parsed(text)
    } else {
        Err(unknown_character())
    }
}

/// `ini::Ini::load_from_str`, with the error displayed. The parser turns
/// the escape `\x` with four hexadecimal digits into the character of that
/// number and does not return where there is none: a text with such an
/// escape is left out. The contract gives the result its name.
#[verifier::external_body]
fn ini_load(text: &str) -> (r: Result<ini::Ini, String>)
    requires
        escapes_name_characters(text.spec_bytes()),
    ensures
        r is Ok == ini_parsed(text@) is Ok,
        r is Ok ==> ini_parsed(text@)->Ok_0 == ini_sections(r->Ok_0),
        r is Err ==> ini_parsed(text@)->Err_0 == r->Err_0@,
{
    match ini::Ini::load_from_str(text) {
        Ok(ini) => Ok(ini),
        Err(e) => Err(e.to_string()),
    }
}

/// Returns whether `b` is a hexadecimal digit.
fn hex(b: u8) -> (r: bool)
    ensures
        r == is_hex(b),
{
    (48 <= b && b <= 57) || (65 <= b && b <= 70) || (97 <= b && b <= 102)
}

/// Returns whether every escape of the form `\x` with four hexadecimal
/// digits, wherever in `text` it stands, names a character.
pub fn escapes_fit(text: &str) -> (r: bool)
    ensures
        r == escapes_name_characters(text.spec_bytes()),
{
    let bytes = text.as_bytes();
    let n = bytes.len();
    if n < 6 {
        return true;
    }
    let mut i: usize = 0;
    while i <= n - 6
        invariant
            n == bytes@.len(),
            bytes@ == text.spec_bytes(),
            6 <= n,
            i <= n - 5,
            forall|k: int| 0 <= k < i ==> !surrogate_at(bytes@, k),
        decreases n - i,
    {
        let third = bytes[i + 2];
        let fourth = bytes[i + 3];
        if bytes[i] == 92 && bytes[i + 1] == 120 && (third == 68 || third == 100) && (fourth == 56
            || fourth == 57 || (65 <= fourth && fourth <= 70) || (97 <= fourth && fourth <= 102))
            && hex(bytes[i + 4]) && hex(bytes[i + 5]) {
            assert(surrogate_at(bytes@, i as int));
            return false;
        }
        i = i + 1;
    }
    true
}

/// Parses the text of a configuration file, unless it holds an escape that
/// names no character.
pub(crate) fn parse(text: &str) -> (r: Result<ini::Ini, String>)
    ensures
        r is Ok == loaded(text@) is Ok,
        r is Ok ==> loaded(text@)->Ok_0 == ini_sections(r->Ok_0),
        r is Err ==> loaded(text@)->Err_0 == r->Err_0@,
{
    if escapes_fit(text) {
        ini_load(text)
    } else {
        Err(String::from_str("Unknown character."))
    }
}

/// `ini::Ini::iter`, for the names: the name of every section, each once,
/// in the order in which the map of sections happens to be walked.
#[verifier::external_body]
fn ini_names(ini: &ini::Ini) -> (r: Vec<Option<String>>)
    ensures
        forall|i: int| 0 <= i < r@.len() ==> ini_sections(*ini).dom().contains(option_view(#[trigger] r@[i])),
        forall|i: int, j: int|
            0 <= i < j < r@.len() ==> option_view(#[trigger] r@[i]) != option_view(#[trigger] r@[j]),
        forall|name: Option<Seq<char>>| #[trigger]
            ini_sections(*ini).dom().contains(name) ==> exists|i: int|
                0 <= i < r@.len() && option_view(#[trigger] r@[i]) == name,
{
    ini.iter().map(|(name, _)| name.clone()).collect()
}

/// `ini::Ini::get_from`: the value of `key` in the section `section`, if the
/// section is there and has the key.
#[verifier::external_body]
pub(crate) fn ini_get(ini: &ini::Ini, section: &str, key: &str) -> (r: Option<String>)
    ensures
        r is Some == (ini_sections(*ini).dom().contains(Some(section@)) && ini_sections(*ini)[Some(
            section@,
        )].dom().contains(key@)),
        r is Some ==> r->0@ == ini_sections(*ini)[Some(section@)][key@],
{
    ini.get_from(Some(section), key).map(|value| value.to_owned())
}

/// `str::split_whitespace`, collected. The contract gives the result its
/// name.
#[verifier::external_body]
pub(crate) fn words(text: &str) -> (r: Vec<String>)
    ensures
        text_views(r@) == words_of(text@),
{
    text.split_whitespace().map(|word| word.to_owned()).collect()
}

/// The section of a configuration file that defines a repository.
pub struct Section {
    /// Path to the repository, as the user wrote it: the name of the section.
    pub path: String,
    /// The value of the `name` key, if it is set.
    pub name: Option<String>,
    /// The value of the `symbol` key, if it is set.
    pub symbol: Option<String>,
    /// The value of the `tags` key, if it is set.
    pub tags: Option<String>,
}

/// Mathematical value of a `Section`.
pub ghost struct SectionView {
    pub path: Seq<char>,
    pub name: Option<Seq<char>>,
    pub symbol: Option<Seq<char>>,
    pub tags: Option<Seq<char>>,
}

impl View for Section {
    type V = SectionView;

    open spec fn view(&self) -> SectionView {
        SectionView {
            path: self.path@,
            name: option_view(self.name),
            symbol: option_view(self.symbol),
            tags: option_view(self.tags),
        }
    }
}

/// The value of `key` among `settings`, if it is set.
pub open spec fn setting(settings: Map<Seq<char>, Seq<char>>, key: Seq<char>) -> Option<Seq<char>> {
    if settings.dom().contains(key) {
        Some(settings[key])
    } else {
        None
    }
}

/// The repository that the section named `path` with `settings` defines.
pub open spec fn section_of(path: Seq<char>, settings: Map<Seq<char>, Seq<char>>) -> SectionView {
    SectionView {
        path: path,
        name: setting(settings, NAME_KEY@),
        symbol: setting(settings, SYMBOL_KEY@),
        tags: setting(settings, TAGS_KEY@),
    }
}

/// Whether `found` are the repositories that the sections `map` define: one
/// for each named section, each with the values of the keys `name`, `symbol`
/// and `tags`, in whatever order.
pub open spec fn defines(map: Map<Option<Seq<char>>, Map<Seq<char>, Seq<char>>>, found: Seq<Section>) -> bool {
    &&& forall|i: int|
        0 <= i < found.len() ==> map.dom().contains(Some((#[trigger] found[i]).path@)) && found[i]@
            == section_of(found[i].path@, map[Some(found[i].path@)])
    &&& forall|i: int, j: int|
        0 <= i < j < found.len() ==> (#[trigger] found[i]).path@ != (#[trigger] found[j]).path@
    &&& forall|path: Seq<char>| #[trigger]
        map.dom().contains(Some(path)) ==> exists|i: int|
            0 <= i < found.len() && (#[trigger] found[i]).path@ == path
}

/// Parses the text of a configuration file and returns the repositories
/// that it defines, one for each of its named sections, in the order in
/// which the sections happen to be walked; or the text of the parse error. A
/// text with an escape that names no character is refused before it is
/// parsed.
pub fn load(text: &str) -> (r: Result<Vec<Section>, String>)
    ensures
        r is Ok == loaded(text@) is Ok,
        r is Ok ==> defines(loaded(text@)->Ok_0, r->Ok_0@),
        r is Err ==> r->Err_0@ == loaded(text@)->Err_0,
{
    match parse(text) {
        Ok(ini) => Ok(sections(&ini)),
        Err(why) => Err(why),
    }
}


/// Whether `paths` are the names of the named sections of `map`, each once,
/// in whatever order.
pub open spec fn names_sections(
    map: Map<Option<Seq<char>>, Map<Seq<char>, Seq<char>>>,
    paths: Seq<Seq<char>>,
) -> bool {
    &&& forall|i: int| 0 <= i < paths.len() ==> map.dom().contains(Some(#[trigger] paths[i]))
    &&& forall|i: int, j: int| 0 <= i < j < paths.len() ==> (#[trigger] paths[i]) != (#[trigger] paths[j])
    &&& forall|path: Seq<char>| #[trigger]
        map.dom().contains(Some(path)) ==> exists|i: int| 0 <= i < paths.len() && (#[trigger] paths[i]) == path
}

/// Returns the names of the named sections of a parsed configuration file,
/// in the order in which the sections happen to be walked.
pub(crate) fn section_paths(ini: &ini::Ini) -> (r: Vec<String>)
    ensures
        names_sections(ini_sections(*ini), text_views(r@)),
{
    let names = ini_names(ini);
    let ghost map = ini_sections(*ini);
    let ghost all = names@.map_values(|n: Option<String>| option_view(n));
    // For each path, the position of its section among the names; for each
    // name, the position of its path, where it has one.
    let ghost mut from: Seq<int> = Seq::empty();
    let ghost mut to: Seq<int> = Seq::empty();
    let mut r: Vec<String> = Vec::new();
    let mut k: usize = 0;
    while k < names.len()
        invariant
            k <= names.len(),
            all == names@.map_values(|n: Option<String>| option_view(n)),
            from.len() == r@.len(),
            to.len() == k,
            forall|i: int| 0 <= i < r@.len() ==> 0 <= #[trigger] from[i] < k && all[from[i]] == Some(r@[i]@),
            forall|i: int, j: int| 0 <= i < j < r@.len() ==> #[trigger] from[i] < #[trigger] from[j],
            forall|n: int|
                0 <= n < k && (#[trigger] all[n]) is Some ==> 0 <= to[n] < r@.len() && Some(r@[to[n]]@)
                    == all[n],
        decreases names.len() - k,
    {
        match &names[k] {
            Some(path) => {
                assert(all[k as int] == Some(path@));
                r.push(path.clone());
                proof {
                    from = from.push(k as int);
                    to = to.push(r@.len() - 1);
                }
            },
            None => {
                assert(all[k as int] is None);
                proof {
                    to = to.push(-1);
                }
            },
        }
        k = k + 1;
    }
    proof {
        let paths = text_views(r@);
        assert forall|i: int| 0 <= i < paths.len() implies map.dom().contains(Some(#[trigger] paths[i])) by {
            assert(all[from[i]] == Some(r@[i]@));
            assert(all[from[i]] == option_view(names@[from[i]]));
        }
        assert forall|i: int, j: int| 0 <= i < j < paths.len() implies (#[trigger] paths[i]) != (
        #[trigger] paths[j]) by {
            let m = from[i];
            let n = from[j];
            assert(m < n);
            assert(all[m] == Some(r@[i]@) && all[n] == Some(r@[j]@));
            assert(option_view(names@[m]) != option_view(names@[n]));
            assert(all[m] == option_view(names@[m]) && all[n] == option_view(names@[n]));
        }
        assert forall|path: Seq<char>| #[trigger] map.dom().contains(Some(path)) implies exists|i: int|
            0 <= i < paths.len() && (#[trigger] paths[i]) == path by {
            let n = choose|n: int| 0 <= n < names@.len() && option_view(#[trigger] names@[n]) == Some(path);
            assert(all[n] == Some(path));
            assert(paths[to[n]] == path);
        }
    }
    r
}

/// Returns the repositories that a parsed configuration file defines.
fn sections(ini: &ini::Ini) -> (r: Vec<Section>)
    ensures
        defines(ini_sections(*ini), r@),
{
    let paths = section_paths(ini);
    let ghost map = ini_sections(*ini);
    let ghost names = text_views(paths@);
    let mut r: Vec<Section> = Vec::new();
    let mut k: usize = 0;
    while k < paths.len()
        invariant
            k <= paths.len(),
            map == ini_sections(*ini),
            names == text_views(paths@),
            names_sections(map, names),
            r@.len() == k,
            forall|i: int|
                0 <= i < k ==> (#[trigger] r@[i]).path@ == names[i] && r@[i]@ == section_of(
                    names[i],
                    map[Some(names[i])],
                ),
        decreases paths.len() - k,
    {
        let path = paths[k].as_str();
        assert(names[k as int] == path@);
        assert(map.dom().contains(Some(names[k as int])));
        let section = Section {
            path: path.to_owned(),
            name: ini_get(ini, path, NAME_KEY),
            symbol: ini_get(ini, path, SYMBOL_KEY),
            tags: ini_get(ini, path, TAGS_KEY),
        };
        assert(section@ == section_of(path@, map[Some(path@)]));
        r.push(section);
        k = k + 1;
    }
    proof {
        assert forall|path: Seq<char>| #[trigger] map.dom().contains(Some(path)) implies exists|i: int|
            0 <= i < r@.len() && (#[trigger] r@[i]).path@ == path by {
            let i = choose|i: int| 0 <= i < names.len() && (#[trigger] names[i]) == path;
            assert(r@[i].path@ == path);
        }
    }
    r
}

/// Where the repository of a section was found.
pub enum Located {
    /// Its path could not be resolved; the text says why.
    Unresolved(String),
    /// Its absolute path is not valid text.
    NotText,
    /// It was found.
    At {
        /// The absolute path.
        full_path: String,
        /// Whether it could be opened as a git repository, or why not.
        opened: Result<(), String>,
    },
}

/// The position of the first repository with the absolute path
/// `full_path`, or the number of repositories where there is none.
pub open spec fn find_full_path(repos: Seq<RepoView>, full_path: Seq<char>) -> int
    decreases repos.len(),
{
    if repos.len() == 0 {
        0
    } else if repos[0].full_path == full_path {
        0
    } else {
        1 + find_full_path(repos.drop_first(), full_path)
    }
}

/// The first repository with an absolute path is found where no repository
/// before it has that path.
pub proof fn lemma_find_full_path(repos: Seq<RepoView>, full_path: Seq<char>, i: int)
    requires
        0 <= i <= repos.len(),
        forall|k: int| 0 <= k < i ==> repos[k].full_path != full_path,
        i < repos.len() ==> repos[i].full_path == full_path,
    ensures
        find_full_path(repos, full_path) == i,
    decreases repos.len(),
{
    if repos.len() > 0 && i > 0 {
        assert(repos[0].full_path != full_path);
        let rest = repos.drop_first();
        assert forall|k: int| 0 <= k < i - 1 implies rest[k].full_path != full_path by {
            assert(rest[k] == repos[k + 1]);
        }
        lemma_find_full_path(rest, full_path, i - 1);
    }
}

/// An error met while the section `section` of `config_path` was taken into
/// the configuration.
pub open spec fn section_error(
    config_path: Seq<char>,
    section: SectionView,
    message: Seq<char>,
    cause: Option<Seq<char>>,
) -> ConfigErrorView {
    ConfigErrorView {
        config_path: config_path,
        repo_path: Some(section.path),
        message: message,
        cause: cause,
    }
}

/// What taking a section into the configuration comes to: the repository
/// that it defines, or the error. A section is refused whose path cannot be
/// resolved or is not text, whose repository is configured already, cannot
/// be opened, or has no name to be shown under.
pub open spec fn registration(
    repos: Seq<RepoView>,
    config_path: Seq<char>,
    section: SectionView,
    located: Located,
) -> Result<RepoView, ConfigErrorView> {
    match located {
        Located::Unresolved(why) => Err(
            section_error(config_path, section, "failed to resolve repo path"@, Some(why@)),
        ),
        Located::NotText => Err(
            section_error(config_path, section, "absolute path contains invalid unicode"@, None),
        ),
        Located::At { full_path, opened } => {
            let at = find_full_path(repos, full_path@);
            if at < repos.len() {
                Err(
                    section_error(
                        config_path,
                        section,
                        "repo is already configured (ignoring new definition)"@,
                        Some("first configured in "@ + repos[at].config_path),
                    ),
                )
            } else {
                match opened {
                    Err(why) => Err(
                        section_error(config_path, section, "failed to open repository"@, Some(why@)),
                    ),
                    Ok(_) => if display_name(section.name, section.path) is None {
                        Err(
                            section_error(
                                config_path,
                                section,
                                "failed to get file_name from repo path"@,
                                None,
                            ),
                        )
                    } else {
                        Ok(
                            RepoView {
                                config_path: config_path,
                                path: section.path,
                                full_path: full_path@,
                                name: section.name,
                                symbol: section.symbol,
                                tags: match section.tags {
                                    Some(tags) => words_of(tags),
                                    None => Seq::empty(),
                                },
                            },
                        )
                    },
                }
            }
        },
    }
}

impl Config {
    /// Takes the repository that `section` of the configuration file
    /// `config_path` defines into the configuration, given where the
    /// repository was found; or returns the error that keeps it out.
    pub fn register(&mut self, config_path: &str, section: &Section, located: &Located) -> (r: Result<
        (),
        ConfigError,
    >)
        ensures
            match registration(old(self)@, config_path@, section@, *located) {
                Ok(repo) => r is Ok && final(self)@ == old(self)@.push(repo),
                Err(error) => r is Err && r->Err_0@ == error && final(self)@ == old(self)@,
            },
    {
        let repo_path = section.path.as_str();
        match located {
            Located::Unresolved(why) => Err(
                ConfigError::new(
                    config_path,
                    Some(repo_path),
                    "failed to resolve repo path",
                    Some(why.as_str()),
                ),
            ),
            Located::NotText => Err(
                ConfigError::new(
                    config_path,
                    Some(repo_path),
                    "absolute path contains invalid unicode",
                    None,
                ),
            ),
            Located::At { full_path, opened } => {
                let mut at: usize = 0;
                while at < self.repos.len() && !same_text(
                    self.repos[at].full_path(),
                    full_path.as_str(),
                )
                    invariant
                        at <= self.repos.len(),
                        self@ == old(self)@,
                        forall|k: int| 0 <= k < at ==> self@[k].full_path != full_path@,
                    decreases self.repos.len() - at,
                {
                    at = at + 1;
                }
                proof {
                    lemma_find_full_path(self@, full_path@, at as int);
                }
                if at < self.repos.len() {
                    let mut cause = String::from_str("first configured in ");
                    cause.append(self.repos[at].config_path());
                    return Err(
                        ConfigError::new(
                            config_path,
                            Some(repo_path),
                            "repo is already configured (ignoring new definition)",
                            Some(cause.as_str()),
                        ),
                    );
                }
                match opened {
                    Err(why) => Err(
                        ConfigError::new(
                            config_path,
                            Some(repo_path),
                            "failed to open repository",
                            Some(why.as_str()),
                        ),
                    ),
                    Ok(_) => {
                        let tags = match &section.tags {
                            Some(tags) => words(tags.as_str()),
                            None => Vec::new(),
                        };
                        if !Repo::can_be_named(option_as_str(&section.name), repo_path) {
                            return Err(
                                ConfigError::new(
                                    config_path,
                                    Some(repo_path),
                                    "failed to get file_name from repo path",
                                    None,
                                ),
                            );
                        }
                        let ghost before = self.repos@;
                        let repo = Repo {
                            config_path: config_path.to_owned(),
                            path: repo_path.to_owned(),
                            full_path: full_path.clone(),
                            name: option_to_owned(option_as_str(&section.name)),
                            symbol: option_to_owned(option_as_str(&section.symbol)),
                            tags: tags,
                        };
                        assert(text_views(Seq::<String>::empty()) =~= Seq::empty());
                        self.repos.push(repo);
                        assert(owned_repo_views(self.repos@) =~= owned_repo_views(before).push(repo@));
                        Ok(())
                    },
                }
            },
        }
    }
}

// ----- TagIter --------------------------------------------------------------
/// Mathematical value of a `TagIter`.
pub ghost struct TagIterView {
    /// The repositories of the configuration.
    pub repos: Seq<RepoView>,
    /// The tags that the user gave, if any.
    pub tags: Option<Seq<Seq<char>>>,
    /// How many items have been yielded.
    pub yielded: nat,
}

impl TagIterView {
    /// How many items there are in all: one for each tag, or one for all
    /// repositories where no tag was given.
    pub open spec fn total(self) -> nat {
        match self.tags {
            Some(tags) => tags.len(),
            None => 1,
        }
    }
}

/// Weird, kind of hacky iterator to support a common UI pattern.
///
/// All the subcommands take (zero or more) `-t/--tag` arguments. If the user
/// supplied none, this yields exactly one item: no tag, and an `Iter` over
/// all the configured repos. Otherwise it yields one item for each tag: the
/// tag, and an `Iter` over the repos with that tag (the same `Repo` may be
/// yielded multiple times if it matches multiple `-t` arguments).
pub struct TagIter<'a> {
    /// Reference to the `Config` to query.
    config: &'a Config,
    /// The tags through which to iterate. `None` indicates no tag arguments
    /// were provided by the end user.
    tags: Option<Vec<String>>,
    /// How many items have been yielded.
    yielded: usize,
}

impl<'a> View for TagIter<'a> {
    type V = TagIterView;

    closed spec fn view(&self) -> TagIterView {
        TagIterView {
            repos: self.config@,
            tags: match self.tags {
                Some(tags) => Some(text_views(tags@)),
                None => None,
            },
            yielded: self.yielded as nat,
        }
    }
}

impl<'a> TagIter<'a> {
    /// Creates and returns a new `TagIter` instance.
    pub fn new(config: &'a Config, tags: Option<Vec<String>>) -> (r: Self)
        ensures
            r@ == (TagIterView {
                repos: config@,
                tags: match tags {
                    Some(tags) => Some(text_views(tags@)),
                    None => None,
                },
                yielded: 0,
            }),
    {
        Self { config, tags, yielded: 0 }
    }

    /// Yields the next tag with an `Iter` over the repos that carry it; or,
    /// where no tag was given, once, no tag with an `Iter` over all
    /// configured repos.
    pub fn next(&mut self) -> (r: Option<(Option<String>, Iter<'a>)>)
        ensures
            r is Some == (old(self)@.yielded < old(self)@.total()),
            r is None ==> final(self)@ == old(self)@,
            r matches Some(item) ==> final(self)@ == (TagIterView {
                yielded: old(self)@.yielded + 1,
                ..old(self)@
            }) && option_view(item.0) == (match old(self)@.tags {
                Some(tags) => Some(tags[old(self)@.yielded as int]),
                None => None,
            }) && item.1@ == (IterView {
                repos: match old(self)@.tags {
                    Some(tags) => with_tag(old(self)@.repos, tags[old(self)@.yielded as int]),
                    None => old(self)@.repos,
                },
                iter_field: Field::Name,
                sort_field: Field::Name,
                sorted: false,
            }),
    {
        let index = self.yielded;
        match &self.tags {
            Some(tags) => {
                if index >= tags.len() {
                    return None;
                }
                let tag = tags[index].clone();
                let repos = self.config.repos().tagged(tag.as_str());
                self.yielded = index + 1;
                Some((Some(tag), repos))
            },
            None => {
                if index >= 1 {
                    return None;
                }
                self.yielded = 1;
                Some((None, self.config.repos()))
            },
        }
    }
}


// ----- ConfigError ----------------------------------------------------------
/// Mathematical value of a `ConfigError`.
pub ghost struct ConfigErrorView {
    pub config_path: Seq<char>,
    pub repo_path: Option<Seq<char>>,
    pub message: Seq<char>,
    pub cause: Option<Seq<char>>,
}

/// Represents an error encountered when reading configuration.
pub struct ConfigError {
    /// Configuration path associated with the error.
    config_path: String,
    /// Path of the repository, if relevant for this error.
    repo_path: Option<String>,
    /// Message describing the error.
    message: String,
    /// Optional message indicating the underlying cause of the error.
    cause: Option<String>,
}

impl View for ConfigError {
    type V = ConfigErrorView;

    closed spec fn view(&self) -> ConfigErrorView {
        ConfigErrorView {
            config_path: self.config_path@,
            repo_path: option_view(self.repo_path),
            message: self.message@,
            cause: option_view(self.cause),
        }
    }
}

impl ConfigError {
    /// Creates and returns a new `ConfigError` instance.
    pub fn new(config_path: &str, repo_path: Option<&str>, message: &str, cause: Option<&str>) -> (r:
        Self)
        ensures
            r@ == (ConfigErrorView {
                config_path: config_path@,
                repo_path: option_str_view(repo_path),
                message: message@,
                cause: option_str_view(cause),
            }),
    {
        Self {
            config_path: config_path.to_owned(),
            repo_path: option_to_owned(repo_path),
            message: message.to_owned(),
            cause: option_to_owned(cause),
        }
    }

    /// Returns the underlying cause of the error.
    pub fn cause(&self) -> (r: Option<&str>)
        ensures
            option_str_view(r) == self@.cause,
    {
        option_as_str(&self.cause)
    }

    /// Returns the configuration path associated with the error.
    pub fn config_path(&self) -> (r: &str)
        ensures
            r@ == self@.config_path,
    {
        self.config_path.as_str()
    }

    /// Returns the message describing the error.
    pub fn message(&self) -> (r: &str)
        ensures
            r@ == self@.message,
    {
        self.message.as_str()
    }

    /// Returns the path of the associated repository, if relevant for this
    /// error.
    pub fn repo_path(&self) -> (r: Option<&str>)
        ensures
            option_str_view(r) == self@.repo_path,
    {
        option_as_str(&self.repo_path)
    }
}

/// The bold style of a colour.
pub open spec fn bold_of(colour: Colour) -> Style {
    Style { foreground: Some(colour), is_bold: true, ..plain() }
}

/// How an error met while reading configuration is described to the user:
/// the message in bold, the cause on a line of its own, then the paths of
/// the configuration and of the repository.
pub open spec fn description(error: ConfigErrorView) -> Seq<char> {
    painted(Style { is_bold: true, ..plain() }, error.message) + (match error.cause {
        Some(cause) => "\n"@ + cause,
        None => Seq::empty(),
    }) + "\nin config at path "@ + painted(bold_of(Colour::Cyan), error.config_path) + (match error.repo_path {
        Some(repo_path) => "\nfor repo  at path "@ + painted(bold_of(Colour::Blue), repo_path),
        None => Seq::empty(),
    })
}

/// Returns the description of `error` that is given to the user as a
/// warning.
pub fn describe(error: &ConfigError) -> (r: String)
    ensures
        r@ == description(error@),
{
    let mut s = paint(Style::new().bold(), error.message());
    let ghost first = s@;
    let ghost second = match error@.cause {
        Some(cause) => "\n"@ + cause,
        None => Seq::<char>::empty(),
    };
    if let Some(cause) = error.cause() {
        s.append("\n");
        s.append(cause);
    }
    assert(s@ =~= first + second);
    let place = paint(Colour::Cyan.bold(), error.config_path());
    s.append("\nin config at path ");
    s.append(place.as_str());
    assert(s@ =~= first + second + "\nin config at path "@ + place@);
    let ghost third = s@;
    if let Some(repo_path) = error.repo_path() {
        let repo = paint(Colour::Blue.bold(), repo_path);
        s.append("\nfor repo  at path ");
        s.append(repo.as_str());
        assert(s@ =~= third + ("\nfor repo  at path "@ + repo@));
    } else {
        assert(s@ =~= third + Seq::<char>::empty());
    }
    s
}

// ----- Action ---------------------------------------------------------------
/// Represents an action to take in response to an error condition.
#[derive(Clone, Copy, Debug, PartialEq, Eq, Structural)]
pub enum Action {
    /// Ignore the error, do nothing.
    Ignore,
    /// Print the error but continue execution.
    Print,
    /// Print the error, then terminate execution with a fatal error.
    Fatal,
}

impl Action {
    /// The action that `value` names.
    pub open spec fn named(value: Seq<char>) -> Option<Action> {
        if value == "ignore"@ {
            Some(Action::Ignore)
        } else if value == "print"@ {
            Some(Action::Print)
        } else if value == "fatal"@ {
            Some(Action::Fatal)
        } else {
            None
        }
    }

    /// Returns the action that the value of the warning argument names, if
    /// it names one.
    pub fn parse(value: &str) -> (r: Option<Action>)
        ensures
            r == Action::named(value@),
    {
        if same_text(value, "ignore") {
            Some(Action::Ignore)
        } else if same_text(value, "print") {
            Some(Action::Print)
        } else if same_text(value, "fatal") {
            Some(Action::Fatal)
        } else {
            None
        }
    }
}

// ----- Control --------------------------------------------------------------
/// Where the first line of `text` ends: the position of its first line feed,
/// or its length.
pub open spec fn line_end(text: Seq<char>) -> nat
    decreases text.len(),
{
    if text.len() == 0 {
        0
    } else if text[0] == '\n' {
        0
    } else {
        1 + line_end(text.drop_first())
    }
}

/// A line without the carriage return that may stand before its line feed.
pub open spec fn without_return(line: Seq<char>) -> Seq<char> {
    if line.len() > 0 && line.last() == '\r' {
        line.drop_last()
    } else {
        line
    }
}

/// The lines of `text`. A line ends at a line feed, or at a carriage return
/// with a line feed behind it; the last line need not end. Line endings are
/// left out.
pub open spec fn lines_of(text: Seq<char>) -> Seq<Seq<char>>
    decreases text.len(),
{
    if text.len() == 0 {
        Seq::empty()
    } else {
        let end = line_end(text);
        if end >= text.len() {
            seq![text]
        } else {
            seq![without_return(text.subrange(0, end as int))] + lines_of(
                text.subrange(end as int + 1, text.len() as int),
            )
        }
    }
}

/// `str::lines`, collected: the lines of the text as the standard library
/// splits them.
#[verifier::external_body]
fn lines(text: &str) -> (r: Vec<String>)
    ensures
        text_views(r@) == lines_of(text@),
{
    text.lines().map(|line| line.to_owned()).collect()
}

/// What is printed for the first `upto` of `lines` under `label` in
/// `colour`: each line behind a margin as wide as the label and a space, the
/// first margin being the label itself, bold in the colour.
pub open spec fn labelled(label: Seq<char>, colour: Colour, lines: Seq<Seq<char>>, upto: nat) -> Seq<char>
    decreases upto,
{
    if upto == 0 {
        Seq::empty()
    } else {
        labelled(label, colour, lines, (upto - 1) as nat) + painted(
            bold_of(colour),
            if upto == 1 {
                label
            } else {
                Seq::new(width(label), |i: int| ' ')
            },
        ) + " "@ + lines[upto - 1] + "\n"@
    }
}

/// What is printed for `message` under `label` in `colour`.
pub open spec fn printed(label: Seq<char>, colour: Colour, message: Seq<char>) -> Seq<char> {
    labelled(label, colour, lines_of(message), lines_of(message).len())
}

/// Mathematical value of the outcome of a warning.
pub ghost struct WarnedView {
    pub text: Seq<char>,
    pub fatal: bool,
}

/// What a warning comes to: the text for the standard error stream, and
/// whether the program is to exit with status 1.
pub struct Warned {
    /// The text to print.
    pub text: String,
    /// Whether the warning is fatal.
    pub fatal: bool,
}

/// What is printed when a warning is fatal.
pub open spec fn fatal_warning() -> Seq<char> {
    "encountered warning, warning action is 'fatal'"@
}

/// What the warning `message` comes to under `action`.
pub open spec fn warned(action: Action, message: Seq<char>) -> WarnedView {
    match action {
        Action::Ignore => WarnedView { text: Seq::empty(), fatal: false },
        Action::Print => WarnedView { text: printed("warning"@, Colour::Yellow, message), fatal: false },
        Action::Fatal => WarnedView {
            text: printed("warning"@, Colour::Yellow, message) + printed(
                "  fatal"@,
                Colour::Red,
                fatal_warning(),
            ),
            fatal: true,
        },
    }
}

/// High level program control – warnings and fatal errors.
pub struct Control {
    /// Action to take on warnings.
    warning_action: Action,
}

impl View for Control {
    type V = Action;

    closed spec fn view(&self) -> Action {
        self.warning_action
    }
}

impl Control {
    /// Creates and returns a new control instance.
    pub fn new(warning_action: Action) -> (r: Self)
        ensures
            r@ == warning_action,
    {
        Self { warning_action }
    }

    /// Returns what is printed for an error condition.
    ///
    /// `label` indicates the type of the condition, `"warning"` or `"  fatal"`
    /// (the labels are "manually" aligned).
    ///
    /// `color` indicates the color for the `label`. The color will be
    /// `bold()`-ed.
    ///
    /// `message` is the message to print. If the message contains
    /// multiple lines, lines subsequent to the first are indented to
    /// `label.len()` plus one.
    pub fn print(&self, label: &str, color: Colour, message: &str) -> (r: String)
        ensures
            r@ == printed(label@, color, message@),
    {
        proof {
            reveal_strlit(" ");
        }
        let mut empty = String::new();
        let mut k: usize = 0;
        let n = byte_len(label);
        assert(empty@ =~= Seq::new(0nat, |i: int| ' '));
        while k < n
            invariant
                k <= n,
                empty@ == Seq::new(k as nat, |i: int| ' '),
                " "@ == seq![' '],
            decreases n - k,
        {
            empty.append(" ");
            assert(empty@ =~= Seq::new((k + 1) as nat, |i: int| ' '));
            k = k + 1;
        }
        let all = lines(message);
        let ghost texts = text_views(all@);
        let mut out = String::new();
        let mut i: usize = 0;
        assert(out@ =~= labelled(label@, color, texts, 0));
        while i < all.len()
            invariant
                i <= all.len(),
                texts == text_views(all@),
                texts == lines_of(message@),
                empty@ == Seq::new(width(label@), |i: int| ' '),
                out@ == labelled(label@, color, texts, i as nat),
            decreases all.len() - i,
        {
            let margin = if i == 0 {
                label
            } else {
                empty.as_str()
            };
            let head = paint(color.bold(), margin);
            let ghost before = out@;
            out.append(head.as_str());
            out.append(" ");
            out.append(all[i].as_str());
            out.append("\n");
            assert(out@ =~= before + head@ + " "@ + texts[i as int] + "\n"@);
            i = i + 1;
        }
        out
    }

    /// Registers a warning with the specified `message` and returns what it
    /// comes to.
    ///
    /// The action taken depends on the `warning_action` supplied to the
    /// constructor:
    ///
    /// * If `Ignore`, nothing is done.
    /// * If `Print`, `message` is printed.
    /// * If `Fatal`, `message` is printed, then a fatal error noting that
    /// warnings are fatal.
    pub fn warning(&self, message: &str) -> (r: Warned)
        ensures
            r.text@ == warned(self@, message@).text,
            r.fatal == warned(self@, message@).fatal,
    {
        match self.warning_action {
            Action::Ignore => Warned { text: String::new(), fatal: false },
            Action::Print => Warned { text: self.print("warning", Colour::Yellow, message), fatal: false },
            Action::Fatal => {
                let mut text = self.print("warning", Colour::Yellow, message);
                text.append(self.fatal("encountered warning, warning action is 'fatal'").as_str());
                Warned { text: text, fatal: true }
            },
        }
    }

    /// Returns what is printed for the fatal error `message`, after which the
    /// program exits with an exit code of `1`.
    pub fn fatal(&self, message: &str) -> (r: String)
        ensures
            r@ == printed("  fatal"@, Colour::Red, message@),
    {
        self.print("  fatal", Colour::Red, message)
    }
}

// ----- Matches --------------------------------------------------------------
/// The values that the user gave for an argument of the subcommand.
pub struct Given {
    /// Name of the argument.
    pub name: String,
    /// The values, in the order in which they were given; none for a flag.
    pub values: Vec<String>,
}

/// Mathematical value of a `Given`.
pub ghost struct GivenView {
    pub name: Seq<char>,
    pub values: Seq<Seq<char>>,
}

impl View for Given {
    type V = GivenView;

    open spec fn view(&self) -> GivenView {
        GivenView { name: self.name@, values: text_views(self.values@) }
    }
}

/// The values of a list of given arguments.
pub open spec fn given_views(given: Seq<Given>) -> Seq<GivenView> {
    given.map_values(|g: Given| g@)
}

/// The position of the first argument named `name`, or the number of
/// arguments where there is none.
pub open spec fn find_given(given: Seq<GivenView>, name: Seq<char>) -> int
    decreases given.len(),
{
    if given.len() == 0 {
        0
    } else if given[0].name == name {
        0
    } else {
        1 + find_given(given.drop_first(), name)
    }
}

/// The first argument of a name is found where no argument before it has
/// that name.
pub proof fn lemma_find_given(given: Seq<GivenView>, name: Seq<char>, i: int)
    requires
        0 <= i <= given.len(),
        forall|k: int| 0 <= k < i ==> given[k].name != name,
        i < given.len() ==> given[i].name == name,
    ensures
        find_given(given, name) == i,
    decreases given.len(),
{
    if given.len() > 0 && i > 0 {
        assert(given[0].name != name);
        let rest = given.drop_first();
        assert forall|k: int| 0 <= k < i - 1 implies rest[k].name != name by {
            assert(rest[k] == given[k + 1]);
        }
        lemma_find_given(rest, name, i - 1);
    }
}

/// The arguments of the subcommand as the user gave them.
pub struct Matches {
    /// The arguments that are present.
    given: Vec<Given>,
}

impl View for Matches {
    type V = Seq<GivenView>;

    closed spec fn view(&self) -> Seq<GivenView> {
        given_views(self.given@)
    }
}

impl Matches {
    /// Creates and returns the matches with no argument present.
    pub fn new() -> (r: Self)
        ensures
            r@ == Seq::<GivenView>::empty(),
    {
        let r = Self { given: Vec::new() };
        assert(r@ =~= Seq::<GivenView>::empty());
        r
    }

    /// Records that the argument `name` is present with `values`.
    pub fn push(&mut self, name: &str, values: Vec<String>)
        ensures
            final(self)@ == old(self)@.push(GivenView { name: name@, values: text_views(values@) }),
    {
        let ghost before = self.given@;
        let given = Given { name: name.to_owned(), values: values };
        self.given.push(given);
        assert(given_views(self.given@) =~= given_views(before).push(given@));
    }

    /// Returns the position of the first argument named `name`, or the
    /// number of arguments where there is none.
    fn position(&self, name: &str) -> (i: usize)
        ensures
            i == find_given(self@, name@),
            i <= self.given@.len(),
    {
        let mut i: usize = 0;
        while i < self.given.len()
            invariant
                i <= self.given.len(),
                forall|k: int| 0 <= k < i ==> self@[k].name != name@,
            decreases self.given.len() - i,
        {
            if same_text(self.given[i].name.as_str(), name) {
                proof {
                    lemma_find_given(self@, name@, i as int);
                }
                return i;
            }
            i = i + 1;
        }
        proof {
            lemma_find_given(self@, name@, i as int);
        }
        i
    }

    /// Returns whether the argument `name` is present.
    pub fn is_present(&self, name: &str) -> (r: bool)
        ensures
            r == (find_given(self@, name@) < self@.len()),
    {
        self.position(name) < self.given.len()
    }

    /// Returns the values of the argument `name`, if it is present.
    pub fn values_of(&self, name: &str) -> (r: Option<&Vec<String>>)
        ensures
            r is Some == (find_given(self@, name@) < self@.len()),
            r is Some ==> text_views(r->0@) == self@[find_given(self@, name@)].values,
    {
        let at = self.position(name);
        if at < self.given.len() {
            assert(self@[at as int] == self.given@[at as int]@);
            Some(&self.given[at].values)
        } else {
            None
        }
    }

    /// Returns the first value of the argument `name`, if it is present and
    /// has a value.
    pub fn value_of(&self, name: &str) -> (r: Option<&str>)
        ensures
            r is Some == (find_given(self@, name@) < self@.len() && self@[find_given(
                self@,
                name@,
            )].values.len() > 0),
            r is Some ==> r->0@ == self@[find_given(self@, name@)].values[0],
    {
        match self.values_of(name) {
            Some(values) => {
                if values.len() > 0 {
                    Some(values[0].as_str())
                } else {
                    None
                }
            },
            None => None,
        }
    }
}

// ----- Invocation -----------------------------------------------------------
/// All state for a given invocation of the program.
pub struct Invocation {
    /// `Config` instance.
    config: Config,
    /// `Control` instance.
    control: Control,
    /// The arguments of the subcommand.
    matches: Matches,
}

impl Invocation {
    /// The repositories of the configuration.
    pub closed spec fn repos(&self) -> Seq<RepoView> {
        self.config@
    }

    /// The action to take on warnings.
    pub closed spec fn action(&self) -> Action {
        self.control@
    }

    /// The arguments of the subcommand.
    pub closed spec fn given(&self) -> Seq<GivenView> {
        self.matches@
    }

    /// Creates and returns a new invocation instance.
    pub fn new(control: Control, config: Config, matches: Matches) -> (r: Self)
        ensures
            r.repos() == config@,
            r.action() == control@,
            r.given() == matches@,
    {
        Self { config, control, matches }
    }

    /// Returns the configuration for this invocation.
    pub fn config(&self) -> (r: &Config)
        ensures
            r@ == self.repos(),
    {
        &self.config
    }

    /// Returns the control struct for this invocation.
    pub fn control(&self) -> (r: &Control)
        ensures
            r@ == self.action(),
    {
        &self.control
    }

    /// Returns the matches struct for this invocation.
    pub fn matches(&self) -> (r: &Matches)
        ensures
            r@ == self.given(),
    {
        &self.matches
    }

    /// Returns a `TagIter` based on the end-user arguments supplied in the
    /// argument named `arg`.
    ///
    /// See the documentation for `TagIter` for a full explanation.
    pub fn iter_tags(&self, arg: &str) -> (r: TagIter<'_>)
        ensures
            r@ == (TagIterView {
                repos: self.repos(),
                tags: if find_given(self.given(), arg@) < self.given().len() {
                    Some(self.given()[find_given(self.given(), arg@)].values)
                } else {
                    None
                },
                yielded: 0,
            }),
    {
        let tags = match self.matches.values_of(arg) {
            Some(values) => {
                let mut tags: Vec<String> = Vec::new();
                let mut i: usize = 0;
                while i < values.len()
                    invariant
                        i <= values.len(),
                        text_views(tags@) =~= text_views(values@).take(i as int),
                    decreases values.len() - i,
                {
                    let ghost before = tags@;
                    tags.push(values[i].clone());
                    assert(text_views(tags@) =~= text_views(before).push(values@[i as int]@));
                    assert(text_views(values@).take(i + 1) =~= text_views(values@).take(i as int).push(
                        values@[i as int]@,
                    ));
                    i = i + 1;
                }
                assert(text_views(values@).take(i as int) =~= text_views(values@));
                Some(tags)
            },
            None => None,
        };
        TagIter::new(&self.config, tags)
    }
}

} // verus!
