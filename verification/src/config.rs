//! Configuration parser and API.
use vstd::prelude::*;
use vstd::string::*;
use crate::app::{
    file_name, file_name_of, ini_get, ini_sections, loaded, names_sections, parse,
    option_as_str, option_str_view, option_to_owned, option_view, section_paths, setting, text_views,
    words, words_of,
};
use crate::order::{
    is_stable_order, key_views, lemma_ordering, ordering, stable_order, KeyView, SortKey,
};
use crate::text::same_text;

verus! {

// ----- Error ----------------------------------------------------------------
/// Error type for this module.
///
/// Note that underlying errors (e.g. permissions errors) are
/// "exposed" by adding their message to the `message` string. This is
/// the responsibility of whoever is constructing the error.
#[derive(Debug)]
pub struct Error {
    /// Message describing the error.
    message: String,
}

impl View for Error {
    type V = Seq<char>;

    closed spec fn view(&self) -> Seq<char> {
        self.message@
    }
}

impl Error {
    /// Returns a new error instance with the specified `message`.
    pub fn new(message: &str) -> (r: Self)
        ensures
            r@ == message@,
    {
        Self { message: message.to_owned() }
    }

    /// Returns the message, which is how the error is displayed.
    pub fn to_string(&self) -> (r: String)
        ensures
            r@ == self@,
    {
        self.message.clone()
    }
}


// ----- Repo -----------------------------------------------------------------
/// Symbol to use if symbol is not configured by end user.
pub open spec fn default_symbol() -> Seq<char> {
    "\u{2022}"@
}

/// The name of a repository: the configured name, else the last component
/// of its path, if it has one.
pub open spec fn name_of(name: Option<Seq<char>>, path: Seq<char>) -> Option<Seq<char>> {
    match name {
        Some(name) => Some(name),
        None => file_name_of(path),
    }
}

/// Mathematical value of a `Repo`.
pub ghost struct RepoView {
    pub config_path: Seq<char>,
    pub path: Seq<char>,
    pub name: Option<Seq<char>>,
    pub comment: Option<Seq<char>>,
    pub symbol: Option<Seq<char>>,
    pub tags: Seq<Seq<char>>,
}

/// Configuration for an individual repository.
pub struct Repo {
    /// Path to the configuration file in which repo was defined.
    config_path: String,
    /// Path to the repository itself.
    path: String,
    /// Optional human friendly-name for the repo.
    name: Option<String>,
    /// Optional comment describing the repo.
    comment: Option<String>,
    /// Optional "symbol" for the repo – the character that precedes
    /// the repo name in status listings.
    symbol: Option<String>,
    /// Tags associated with the repo.
    tags: Vec<String>,
}

impl View for Repo {
    type V = RepoView;

    closed spec fn view(&self) -> RepoView {
        RepoView {
            config_path: self.config_path@,
            path: self.path@,
            name: option_view(self.name),
            comment: option_view(self.comment),
            symbol: option_view(self.symbol),
            tags: text_views(self.tags@),
        }
    }
}

impl Repo {
    /// Every repository has a name.
    #[verifier::type_invariant]
    spec fn named(self) -> bool {
        name_of(option_view(self.name), self.path@) is Some
    }

    /// Returns whether a repository with this `name` and path has a name.
    pub fn can_be_named(name: Option<&str>, repo_path: &str) -> (r: bool)
        ensures
            r == name_of(option_str_view(name), repo_path@) is Some,
    {
        if name.is_some() {
            true
        } else {
            file_name(repo_path).is_some()
        }
    }

    /// Creates and returns a new Repo object. The tags are the words of
    /// `tags`.
    pub fn new(
        config_path: &str,
        repo_path: &str,
        name: Option<&str>,
        comment: Option<&str>,
        symbol: Option<&str>,
        tags: Option<&str>,
    ) -> (r: Self)
        requires
            name_of(option_str_view(name), repo_path@) is Some,
        ensures
            r@ == (RepoView {
                config_path: config_path@,
                path: repo_path@,
                name: option_str_view(name),
                comment: option_str_view(comment),
                symbol: option_str_view(symbol),
                tags: match tags {
                    Some(s) => words_of(s@),
                    None => Seq::empty(),
                },
            }),
    {
        let tags = match tags {
            Some(s) => words(s),
            None => Vec::new(),
        };
        assert(text_views(Seq::<String>::empty()) =~= Seq::empty());
        Self {
            config_path: config_path.to_owned(),
            path: repo_path.to_owned(),
            name: option_to_owned(name),
            comment: option_to_owned(comment),
            symbol: option_to_owned(symbol),
            tags: tags,
        }
    }

    /// Creates a new Repo object where it has a name, and none where it has
    /// not.
    pub fn try_new(
        config_path: &str,
        repo_path: &str,
        name: Option<&str>,
        comment: Option<&str>,
        symbol: Option<&str>,
        tags: Option<&str>,
    ) -> (r: Option<Self>)
        ensures
            r is Some == name_of(option_str_view(name), repo_path@) is Some,
            r is Some ==> r->0@ == (RepoView {
                config_path: config_path@,
                path: repo_path@,
                name: option_str_view(name),
                comment: option_str_view(comment),
                symbol: option_str_view(symbol),
                tags: match tags {
                    Some(s) => words_of(s@),
                    None => Seq::empty(),
                },
            }),
    {
        if Self::can_be_named(name, repo_path) {
            Some(Self::new(config_path, repo_path, name, comment, symbol, tags))
        } else {
            None
        }
    }

    /// Returns config path for this repository.
    pub fn config_path(&self) -> (r: &str)
        ensures
            r@ == self@.config_path,
    {
        self.config_path.as_str()
    }

    /// Returns path to the repository as specified by the end user.
    pub fn path(&self) -> (r: &str)
        ensures
            r@ == self@.path,
    {
        self.path.as_str()
    }

    /// Returns name of the repository.
    pub fn name(&self) -> (r: Option<String>)
        ensures
            option_view(r) == self@.name,
    {
        option_to_owned(option_as_str(&self.name))
    }

    /// Returns name of repository if set, or the default value (last
    /// component of the repo path) if name is not set.
    pub fn name_or_default(&self) -> (r: String)
        ensures
            Some(r@) == name_of(self@.name, self@.path),
    {
        proof {
            use_type_invariant(self);
        }
        match &self.name {
            Some(name) => name.clone(),
            None => match file_name(self.path.as_str()) {
                Some(name) => name.to_owned(),
                None => vstd::pervasive::unreached(),
            },
        }
    }

    /// Returns comment for the repository.
    pub fn comment(&self) -> (r: Option<String>)
        ensures
            option_view(r) == self@.comment,
    {
        option_to_owned(option_as_str(&self.comment))
    }

    /// Returns symbol for the repository.
    pub fn symbol(&self) -> (r: Option<String>)
        ensures
            option_view(r) == self@.symbol,
    {
        option_to_owned(option_as_str(&self.symbol))
    }

    /// Returns symbol of repository if set, or the default value if
    /// symbol is not set.
    pub fn symbol_or_default(&self) -> (r: String)
        ensures
            r@ == (match self@.symbol {
                Some(symbol) => symbol,
                None => default_symbol(),
            }),
    {
        match &self.symbol {
            Some(symbol) => symbol.clone(),
            None => String::from_str("\u{2022}"),
        }
    }

    /// Returns tags for this repository.
    pub fn tags(&self) -> (r: &[String])
        ensures
            text_views(r@) == self@.tags,
    {
        self.tags.as_slice()
    }

    /// Returns whether the repository carries the tag `tag`.
    pub fn has_tag(&self, tag: &str) -> (r: bool)
        ensures
            r == self@.tags.contains(tag@),
    {
        let mut i: usize = 0;
        while i < self.tags.len()
            invariant
                i <= self.tags.len(),
                forall|k: int| 0 <= k < i ==> (#[trigger] self@.tags[k]) != tag@,
            decreases self.tags.len() - i,
        {
            if same_text(self.tags[i].as_str(), tag) {
                assert(self@.tags[i as int] == tag@);
                return true;
            }
            i = i + 1;
        }
        false
    }
}

// ----- Config ---------------------------------------------------------------
/// Name config key.
pub const NAME_KEY: &'static str = "name";

/// Comment config key.
pub const COMMENT_KEY: &'static str = "comment";

/// Symbol config key.
pub const SYMBOL_KEY: &'static str = "symbol";

/// Tags config key.
pub const TAGS_KEY: &'static str = "tags";

/// The values of a list of repositories.
pub open spec fn repo_views(repos: Seq<Repo>) -> Seq<RepoView> {
    repos.map_values(|r: Repo| r@)
}

/// The position of the first repository with the path `path`, or the number
/// of repositories where there is none.
pub open spec fn find_path(repos: Seq<RepoView>, path: Seq<char>) -> int
    decreases repos.len(),
{
    if repos.len() == 0 {
        0
    } else if repos[0].path == path {
        0
    } else {
        1 + find_path(repos.drop_first(), path)
    }
}

/// The first repository with a path is found where no repository before it
/// has that path.
pub proof fn lemma_find_path(repos: Seq<RepoView>, path: Seq<char>, i: int)
    requires
        0 <= i <= repos.len(),
        forall|k: int| 0 <= k < i ==> repos[k].path != path,
        i < repos.len() ==> repos[i].path == path,
    ensures
        find_path(repos, path) == i,
    decreases repos.len(),
{
    if repos.len() > 0 && i > 0 {
        assert(repos[0].path != path);
        let rest = repos.drop_first();
        assert forall|k: int| 0 <= k < i - 1 implies rest[k].path != path by {
            assert(rest[k] == repos[k + 1]);
        }
        lemma_find_path(rest, path, i - 1);
    }
}

/// What repositories are ordered by: their names, then their paths.
pub open spec fn path_keys(repos: Seq<RepoView>) -> Seq<KeyView> {
    repos.map_values(
        |r: RepoView| KeyView { group: 0, first: name_of(r.name, r.path)->0, second: r.path },
    )
}

/// The paths of `repos`, sorted by the names of the repositories, then by
/// the paths themselves.
pub open spec fn sorted_paths(repos: Seq<RepoView>) -> Seq<Seq<char>> {
    Seq::new(repos.len(), |k: int| repos[ordering(path_keys(repos))[k] as int].path)
}

/// The repositories among `repos` that carry the tag `tag`, in their order.
pub open spec fn with_tag(repos: Seq<RepoView>, tag: Seq<char>) -> Seq<RepoView>
    decreases repos.len(),
{
    if repos.len() == 0 {
        Seq::empty()
    } else if repos.last().tags.contains(tag) {
        with_tag(repos.drop_last(), tag).push(repos.last())
    } else {
        with_tag(repos.drop_last(), tag)
    }
}

/// Configuration for the program.
///
/// Repositories are "keyed" by the path specified by the user in the
/// config file (i.e. by the thing inside the brackets). The "key" for
/// `[~/mgit]` is `~/mgit`.
///
/// An individual repo can be fetched with the `repo` method, using
/// the key.
pub struct Config {
    /// The successfully initialized `Repo` configurations, no two with the
    /// same path.
    repos: Vec<Repo>,
}

impl View for Config {
    type V = Seq<RepoView>;

    closed spec fn view(&self) -> Seq<RepoView> {
        repo_views(self.repos@)
    }
}

/// Returns the paths of `repos`, sorted by the names of the repositories,
/// then by the paths themselves.
fn paths_sort<'a>(repos: &Vec<&'a Repo>) -> (rv: Vec<&'a str>)
    ensures
        crate::app::str_views(rv@) == sorted_paths(repos@.map_values(|r: &Repo| r@)),
{
    let ghost views = repos@.map_values(|r: &Repo| r@);
    let mut keys: Vec<SortKey> = Vec::new();
    let mut i: usize = 0;
    while i < repos.len()
        invariant
            i <= repos.len(),
            views == repos@.map_values(|r: &Repo| r@),
            key_views(keys@) =~= path_keys(views.take(i as int)),
        decreases repos.len() - i,
    {
        let ghost before = keys@;
        let key = SortKey {
            group: 0,
            first: repos[i].name_or_default(),
            second: repos[i].path().to_owned(),
        };
        let ghost value = key@;
        keys.push(key);
        assert(key_views(keys@) =~= key_views(before).push(value));
        assert(views.take(i + 1) =~= views.take(i as int).push(views[i as int]));
        assert(path_keys(views.take(i + 1)) =~= path_keys(views.take(i as int)).push(value));
        i = i + 1;
    }
    assert(views.take(i as int) =~= views);
    let order = stable_order(&keys);
    proof {
        lemma_ordering(path_keys(views), order@);
    }
    let mut rv: Vec<&'a str> = Vec::new();
    let mut k: usize = 0;
    while k < order.len()
        invariant
            k <= order.len(),
            order@.len() == repos@.len(),
            views == repos@.map_values(|r: &Repo| r@),
            is_stable_order(path_keys(views), order@),
            ordering(path_keys(views)) == order@,
            crate::app::str_views(rv@) =~= sorted_paths(views).take(k as int),
        decreases order.len() - k,
    {
        let ghost before = rv@;
        assert(order@[k as int] < repos@.len());
        let path = repos[order[k]].path();
        rv.push(path);
        assert(crate::app::str_views(rv@) =~= crate::app::str_views(before).push(path@));
        k = k + 1;
    }
    assert(sorted_paths(views).take(k as int) =~= sorted_paths(views));
    rv
}

impl Config {
    /// Creates and returns a new configuration object.
    pub fn new() -> (r: Self)
        ensures
            r@ == Seq::<RepoView>::empty(),
    {
        let r = Self { repos: Vec::new() };
        assert(r@ =~= Seq::<RepoView>::empty());
        r
    }

    /// Puts `repo` into the configuration under its path: it takes the place
    /// of the repository that has that path, or comes last.
    pub fn insert(&mut self, repo: Repo)
        ensures
            final(self)@ == (if find_path(old(self)@, repo@.path) < old(self)@.len() {
                old(self)@.update(find_path(old(self)@, repo@.path), repo@)
            } else {
                old(self)@.push(repo@)
            }),
    {
        let at = self.position(repo.path());
        let ghost before = self.repos@;
        if at < self.repos.len() {
            self.repos.set(at, repo);
            assert(repo_views(self.repos@) =~= repo_views(before).update(at as int, repo@));
        } else {
            self.repos.push(repo);
            assert(repo_views(self.repos@) =~= repo_views(before).push(repo@));
        }
    }

    /// Returns the position of the first repository with the path `path`, or
    /// the number of repositories where there is none.
    fn position(&self, path: &str) -> (at: usize)
        ensures
            at == find_path(self@, path@),
            at <= self.repos@.len(),
    {
        let mut at: usize = 0;
        while at < self.repos.len() && !same_text(self.repos[at].path(), path)
            invariant
                at <= self.repos.len(),
                forall|k: int| 0 <= k < at ==> self@[k].path != path@,
            decreases self.repos.len() - at,
        {
            at = at + 1;
        }
        proof {
            lemma_find_path(self@, path@, at as int);
        }
        at
    }

    /// Returns `Vec` of all paths in the config, sorted by repository
    /// name.
    ///
    /// The secondary sort parameter is the path itself, to ensure
    /// that return values from this function are deterministic.
    pub fn paths<'a>(&'a self) -> (rv: Vec<&'a str>)
        ensures
            crate::app::str_views(rv@) == sorted_paths(self@),
    {
        let mut all: Vec<&'a Repo> = Vec::new();
        let mut i: usize = 0;
        while i < self.repos.len()
            invariant
                i <= self.repos.len(),
                all@.map_values(|r: &Repo| r@) =~= self@.take(i as int),
            decreases self.repos.len() - i,
        {
            let ghost before = all@;
            let repo = &self.repos[i];
            all.push(repo);
            assert(all@.map_values(|r: &Repo| r@) =~= before.map_values(|r: &Repo| r@).push(repo@));
            assert(self@.take(i + 1) =~= self@.take(i as int).push(self.repos@[i as int]@));
            i = i + 1;
        }
        assert(self@.take(i as int) =~= self@);
        paths_sort(&all)
    }

    /// Returns `Vec` of paths whose repos have the tag `tag`, sorted
    /// by repository name.
    ///
    /// The secondary sort parameter is the path itself, to ensure
    /// that return values from this function are deterministic.
    pub fn paths_for_tag<'a>(&'a self, tag: &str) -> (rv: Vec<&'a str>)
        ensures
            crate::app::str_views(rv@) == sorted_paths(with_tag(self@, tag@)),
    {
        let mut all: Vec<&'a Repo> = Vec::new();
        let mut i: usize = 0;
        assert(self@.take(0) =~= Seq::empty());
        while i < self.repos.len()
            invariant
                i <= self.repos.len(),
                all@.map_values(|r: &Repo| r@) =~= with_tag(self@.take(i as int), tag@),
            decreases self.repos.len() - i,
        {
            let ghost before = all@;
            assert(self@.take(i + 1).drop_last() =~= self@.take(i as int));
            assert(self@.take(i + 1).last() == self.repos@[i as int]@);
            let repo = &self.repos[i];
            if repo.has_tag(tag) {
                all.push(repo);
                assert(all@.map_values(|r: &Repo| r@) =~= before.map_values(|r: &Repo| r@).push(repo@));
            }
            i = i + 1;
        }
        assert(self@.take(i as int) =~= self@);
        paths_sort(&all)
    }

    /// Returns reference to repo at `path`.
    pub fn repo(&self, path: &str) -> (r: Option<&Repo>)
        ensures
            r is Some == (find_path(self@, path@) < self@.len()),
            r is Some ==> r->0@ == self@[find_path(self@, path@)],
    {
        let at = self.position(path);
        if at < self.repos.len() {
            Some(&self.repos[at])
        } else {
            None
        }
    }

    /// Returns the repositories of the configuration.
    pub fn repos(&self) -> (r: &[Repo])
        ensures
            repo_views(r@) == self@,
    {
        self.repos.as_slice()
    }
}


// ----- reading --------------------------------------------------------------
/// The section of a configuration file that defines a repository.
pub struct Entry {
    /// Path to the repository, as the user wrote it: the name of the section.
    pub path: String,
    /// The value of the `name` key, if it is set.
    pub name: Option<String>,
    /// The value of the `comment` key, if it is set.
    pub comment: Option<String>,
    /// The value of the `symbol` key, if it is set.
    pub symbol: Option<String>,
    /// The value of the `tags` key, if it is set.
    pub tags: Option<String>,
}

/// Mathematical value of an `Entry`.
pub ghost struct EntryView {
    pub path: Seq<char>,
    pub name: Option<Seq<char>>,
    pub comment: Option<Seq<char>>,
    pub symbol: Option<Seq<char>>,
    pub tags: Option<Seq<char>>,
}

impl View for Entry {
    type V = EntryView;

    open spec fn view(&self) -> EntryView {
        EntryView {
            path: self.path@,
            name: option_view(self.name),
            comment: option_view(self.comment),
            symbol: option_view(self.symbol),
            tags: option_view(self.tags),
        }
    }
}

/// The repository that the section named `path` with `settings` defines.
pub open spec fn entry_of(path: Seq<char>, settings: Map<Seq<char>, Seq<char>>) -> EntryView {
    EntryView {
        path: path,
        name: setting(settings, NAME_KEY@),
        comment: setting(settings, COMMENT_KEY@),
        symbol: setting(settings, SYMBOL_KEY@),
        tags: setting(settings, TAGS_KEY@),
    }
}

/// Parses the text of a configuration file and returns the repositories
/// that it defines, one for each of its named sections, in the order in
/// which the sections happen to be walked; or the text of the parse error. A
/// text with an escape that names no character is refused before it is
/// parsed.
pub fn load(text: &str) -> (r: Result<Vec<Entry>, String>)
    ensures
        r is Ok == loaded(text@) is Ok,
        r is Err ==> r->Err_0@ == loaded(text@)->Err_0,
        r matches Ok(found) ==> names_sections(
            loaded(text@)->Ok_0,
            found@.map_values(|e: Entry| e.path@),
        ) && forall|i: int|
            0 <= i < found@.len() ==> (#[trigger] found@[i])@ == entry_of(
                found@[i].path@,
                loaded(text@)->Ok_0[Some(found@[i].path@)],
            ),
{
    let ini = match parse(text) {
        Ok(ini) => ini,
        Err(why) => {
            return Err(why);
        },
    };
    let paths = section_paths(&ini);
    let ghost map = ini_sections(ini);
    let ghost names = text_views(paths@);
    let mut r: Vec<Entry> = Vec::new();
    let mut k: usize = 0;
    while k < paths.len()
        invariant
            k <= paths.len(),
            map == ini_sections(ini),
            names == text_views(paths@),
            names_sections(map, names),
            r@.len() == k,
            forall|i: int|
                0 <= i < k ==> (#[trigger] r@[i]).path@ == names[i] && r@[i]@ == entry_of(
                    names[i],
                    map[Some(names[i])],
                ),
        decreases paths.len() - k,
    {
        let path = paths[k].as_str();
        assert(names[k as int] == path@);
        assert(map.dom().contains(Some(names[k as int])));
        let entry = Entry {
            path: path.to_owned(),
            name: ini_get(&ini, path, NAME_KEY),
            comment: ini_get(&ini, path, COMMENT_KEY),
            symbol: ini_get(&ini, path, SYMBOL_KEY),
            tags: ini_get(&ini, path, TAGS_KEY),
        };
        assert(entry@ == entry_of(path@, map[Some(path@)]));
        r.push(entry);
        k = k + 1;
    }
    assert(r@.map_values(|e: Entry| e.path@) =~= names);
    Ok(r)
}

/// Where the repository of an entry was found.
pub enum Placed {
    /// Its absolute path could not be had; the text says why.
    Unplaced(String),
    /// Its absolute path is that of a repository that the configuration file
    /// `by` has defined already.
    Taken {
        /// The absolute path.
        absolute: String,
        /// The configuration file that defined the repository first.
        by: String,
    },
    /// It could not be opened as a git repository; the text says why.
    Unopened {
        /// The absolute path.
        absolute: String,
        /// Why the repository could not be opened.
        why: String,
    },
    /// It was found and opened.
    Opened,
}

/// The message with which a repository is kept out of the configuration, or
/// nothing where it is taken in.
pub open spec fn refusal(path: Seq<char>, placed: Placed) -> Option<Seq<char>> {
    match placed {
        Placed::Unplaced(why) => Some(
            "failed to get absolute path for '"@ + path + "' ("@ + why@ + ")"@,
        ),
        Placed::Taken { absolute, by } => Some(
            "repo at '"@ + absolute@ + "' already configured in config file '"@ + by@
                + "' (ignoring this definition)"@,
        ),
        Placed::Unopened { absolute, why } => Some(
            "failed to open repository at '"@ + absolute@ + "' ("@ + why@ + ")"@,
        ),
        Placed::Opened => None,
    }
}

impl Config {
    /// Takes `repo` into the configuration, given where it was found; or
    /// returns the error that keeps it out.
    pub fn accept(&mut self, repo: Repo, placed: &Placed) -> (r: Result<(), Error>)
        ensures
            match refusal(repo@.path, *placed) {
                Some(message) => r is Err && r->Err_0@ == message && final(self)@ == old(self)@,
                None => r is Ok && final(self)@ == (if find_path(old(self)@, repo@.path) < old(
                    self,
                )@.len() {
                    old(self)@.update(find_path(old(self)@, repo@.path), repo@)
                } else {
                    old(self)@.push(repo@)
                }),
            },
    {
        match placed {
            Placed::Unplaced(why) => {
                let mut m = String::from_str("failed to get absolute path for '");
                m.append(repo.path());
                m.append("' (");
                m.append(why.as_str());
                m.append(")");
                Err(Error::new(m.as_str()))
            },
            Placed::Taken { absolute, by } => {
                let mut m = String::from_str("repo at '");
                m.append(absolute.as_str());
                m.append("' already configured in config file '");
                m.append(by.as_str());
                m.append("' (ignoring this definition)");
                Err(Error::new(m.as_str()))
            },
            Placed::Unopened { absolute, why } => {
                let mut m = String::from_str("failed to open repository at '");
                m.append(absolute.as_str());
                m.append("' (");
                m.append(why.as_str());
                m.append(")");
                Err(Error::new(m.as_str()))
            },
            Placed::Opened => {
                self.insert(repo);
                Ok(())
            },
        }
    }
}

} // verus!
