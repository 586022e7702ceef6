//! The live dashboard of a run: one row for each repository with its
//! remotes, painted by state, and repainted cell by cell as states change.
use vstd::prelude::*;
use vstd::string::*;
use ansi_term::{Colour, Style};
use crate::app::{option_view, Repo};
use crate::cmd::pull::{Results, State};
use crate::order::{
    is_stable_order, key_less, key_views, lemma_order_exists, lemma_ordering, ordering, precedes,
    stable_order, KeyView, SortKey,
};
use crate::term::{clear_all, goto, goto_sequence, hide_cursor, paint, painted, plain, show_cursor};
use crate::text::{byte_len, clip, clipped, decimal, decimal_string, lemma_clipped_width, same_text, width};
use crate::ui::{worst, Kind, NoteView};

verus! {

// ----- styles ---------------------------------------------------------------
/// The "standard" style for `kind`.
pub open spec fn kind_style(kind: Kind) -> Style {
    match kind {
        Kind::Neutral => plain(),
        Kind::Success => Style { foreground: Some(Colour::Green), ..plain() },
        Kind::Warning => Style { foreground: Some(Colour::Yellow), ..plain() },
        Kind::Failure => Style { foreground: Some(Colour::Red), ..plain() },
    }
}

/// The style in which a remote in `state` is painted.
pub open spec fn state_style(state: State) -> Style {
    match state {
        State::Pending => Style { foreground: Some(Colour::Blue), ..plain() },
        State::Canceled => Style { is_dimmed: true, ..plain() },
        State::Fetching => Style { foreground: Some(Colour::Cyan), ..plain() },
        State::NoChange => plain(),
        State::Success => Style { foreground: Some(Colour::Green), ..plain() },
        State::Warning => Style { foreground: Some(Colour::Yellow), ..plain() },
        State::Failure => Style { foreground: Some(Colour::Red), ..plain() },
    }
}

/// The style in which the name of a repository is painted whose summary is
/// of `kind`.
pub open spec fn name_style(kind: Kind) -> Style {
    Style { is_bold: true, ..kind_style(kind) }
}

/// Returns the "standard" `Style` for the given `kind`.
pub fn style_for_kind(kind: &Kind) -> (r: Style)
    ensures
        r == kind_style(*kind),
{
    match *kind {
        Kind::Neutral => Style::new(),
        Kind::Success => Colour::Green.normal(),
        Kind::Warning => Colour::Yellow.normal(),
        Kind::Failure => Colour::Red.normal(),
    }
}

/// Returns the appropriate style for the given `state`.
pub fn style_for_state(state: &State) -> (r: Style)
    ensures
        r == state_style(*state),
{
    match *state {
        State::Pending => Colour::Blue.normal(),
        State::Canceled => Style::new().dimmed(),
        State::Fetching => Colour::Cyan.normal(),
        State::NoChange => Style::new(),
        State::Success => Colour::Green.normal(),
        State::Warning => Colour::Yellow.normal(),
        State::Failure => Colour::Red.normal(),
    }
}

// ----- rows -----------------------------------------------------------------
/// A remote of a repository with the state of its fetch.
pub struct Remote {
    /// Name of the remote.
    pub name: String,
    /// State of the fetch.
    pub state: State,
}

/// Mathematical value of a `Remote`.
pub ghost struct RemoteView {
    pub name: Seq<char>,
    pub state: State,
}

impl View for Remote {
    type V = RemoteView;

    open spec fn view(&self) -> RemoteView {
        RemoteView { name: self.name@, state: self.state }
    }
}

/// The values of a list of remotes.
pub open spec fn remote_views(remotes: Seq<Remote>) -> Seq<RemoteView> {
    remotes.map_values(|r: Remote| r@)
}

/// A repository with its remotes.
pub struct Row {
    /// Position of the repository among the repositories of the run.
    pub repo: usize,
    /// The name under which the repository is shown.
    pub name: String,
    /// Path to the repository, as specified by the user.
    pub path: String,
    /// The remotes of the repository, in the order in which they were added.
    pub remotes: Vec<Remote>,
}

/// Mathematical value of a `Row`.
pub ghost struct RowView {
    pub repo: nat,
    pub name: Seq<char>,
    pub path: Seq<char>,
    pub remotes: Seq<RemoteView>,
}

impl View for Row {
    type V = RowView;

    open spec fn view(&self) -> RowView {
        RowView {
            repo: self.repo as nat,
            name: self.name@,
            path: self.path@,
            remotes: remote_views(self.remotes@),
        }
    }
}

/// The values of a list of rows.
pub open spec fn row_views(rows: Seq<Row>) -> Seq<RowView> {
    rows.map_values(|r: Row| r@)
}

/// A change of state that waits to be painted.
pub struct Update {
    /// Position of the repository.
    pub repo: usize,
    /// Name of the remote.
    pub remote: String,
    /// The new state of the remote.
    pub state: State,
}

/// Mathematical value of an `Update`.
pub ghost struct UpdateView {
    pub repo: nat,
    pub remote: Seq<char>,
    pub state: State,
}

impl View for Update {
    type V = UpdateView;

    open spec fn view(&self) -> UpdateView {
        UpdateView { repo: self.repo as nat, remote: self.remote@, state: self.state }
    }
}

/// The values of a list of updates.
pub open spec fn update_views(updates: Seq<Update>) -> Seq<UpdateView> {
    updates.map_values(|u: Update| u@)
}

/// What was painted where: the text that stands for a repository, or for one
/// of its remotes, at a column and row of the terminal, both counted from one.
pub struct Location {
    /// Position of the repository.
    pub repo: usize,
    /// Name of the remote, or nothing for the repository's own name.
    pub remote: Option<String>,
    /// Column of the first character.
    pub x: u16,
    /// Row.
    pub y: u16,
    /// The text that was painted.
    pub text: String,
}

/// Mathematical value of a `Location`.
pub ghost struct LocationView {
    pub repo: nat,
    pub remote: Option<Seq<char>>,
    pub x: u16,
    pub y: u16,
    pub text: Seq<char>,
}

impl View for Location {
    type V = LocationView;

    open spec fn view(&self) -> LocationView {
        LocationView {
            repo: self.repo as nat,
            remote: option_view(self.remote),
            x: self.x,
            y: self.y,
            text: self.text@,
        }
    }
}

/// The values of a list of locations.
pub open spec fn location_views(locations: Seq<Location>) -> Seq<LocationView> {
    locations.map_values(|l: Location| l@)
}

/// The position of the first row of repository `repo`, or the number of
/// rows where there is none.
pub open spec fn find_row(rows: Seq<RowView>, repo: nat) -> int
    decreases rows.len(),
{
    if rows.len() == 0 {
        0
    } else if rows[0].repo == repo {
        0
    } else {
        1 + find_row(rows.drop_first(), repo)
    }
}

/// The position of the first remote named `name`, or the number of remotes
/// where there is none.
pub open spec fn find_remote(remotes: Seq<RemoteView>, name: Seq<char>) -> int
    decreases remotes.len(),
{
    if remotes.len() == 0 {
        0
    } else if remotes[0].name == name {
        0
    } else {
        1 + find_remote(remotes.drop_first(), name)
    }
}

/// The position of the first location of `remote` of repository `repo`, or
/// the number of locations where there is none.
pub open spec fn find_location(locations: Seq<LocationView>, repo: nat, remote: Option<Seq<char>>) -> int
    decreases locations.len(),
{
    if locations.len() == 0 {
        0
    } else if locations[0].repo == repo && locations[0].remote == remote {
        0
    } else {
        1 + find_location(locations.drop_first(), repo, remote)
    }
}

/// The first row of a repository is found where no row before it is of that
/// repository.
pub proof fn lemma_find_row(rows: Seq<RowView>, repo: nat, i: int)
    requires
        0 <= i <= rows.len(),
        forall|k: int| 0 <= k < i ==> rows[k].repo != repo,
        i < rows.len() ==> rows[i].repo == repo,
    ensures
        find_row(rows, repo) == i,
    decreases rows.len(),
{
    if rows.len() > 0 && i > 0 {
        assert(rows[0].repo != repo);
        let rest = rows.drop_first();
        assert forall|k: int| 0 <= k < i - 1 implies rest[k].repo != repo by {
            assert(rest[k] == rows[k + 1]);
        }
        lemma_find_row(rest, repo, i - 1);
    }
}

/// The first remote of a name is found where no remote before it has that
/// name.
pub proof fn lemma_find_remote(remotes: Seq<RemoteView>, name: Seq<char>, i: int)
    requires
        0 <= i <= remotes.len(),
        forall|k: int| 0 <= k < i ==> remotes[k].name != name,
        i < remotes.len() ==> remotes[i].name == name,
    ensures
        find_remote(remotes, name) == i,
    decreases remotes.len(),
{
    if remotes.len() > 0 && i > 0 {
        assert(remotes[0].name != name);
        let rest = remotes.drop_first();
        assert forall|k: int| 0 <= k < i - 1 implies rest[k].name != name by {
            assert(rest[k] == remotes[k + 1]);
        }
        lemma_find_remote(rest, name, i - 1);
    }
}

/// The first location of a cell is found where no location before it is of
/// that cell.
pub proof fn lemma_find_location(
    locations: Seq<LocationView>,
    repo: nat,
    remote: Option<Seq<char>>,
    i: int,
)
    requires
        0 <= i <= locations.len(),
        forall|k: int| 0 <= k < i ==> !(locations[k].repo == repo && locations[k].remote == remote),
        i < locations.len() ==> locations[i].repo == repo && locations[i].remote == remote,
    ensures
        find_location(locations, repo, remote) == i,
    decreases locations.len(),
{
    if locations.len() > 0 && i > 0 {
        assert(!(locations[0].repo == repo && locations[0].remote == remote));
        let rest = locations.drop_first();
        assert forall|k: int| 0 <= k < i - 1 implies !(rest[k].repo == repo && rest[k].remote
            == remote) by {
            assert(rest[k] == locations[k + 1]);
        }
        lemma_find_location(rest, repo, remote, i - 1);
    }
}

/// The remotes with `name` in `state`: the first remote of that name takes
/// the state, or a remote of that name is added.
pub open spec fn with_remote(remotes: Seq<RemoteView>, name: Seq<char>, state: State) -> Seq<RemoteView> {
    let at = find_remote(remotes, name);
    if at < remotes.len() {
        remotes.update(at, RemoteView { name: name, state: state })
    } else {
        remotes.push(RemoteView { name: name, state: state })
    }
}

/// Returns the position of the first row of repository `repo`, or the
/// number of rows where there is none.
pub fn row_of(rows: &Vec<Row>, repo: usize) -> (i: usize)
    ensures
        i == find_row(row_views(rows@), repo as nat),
        i <= rows.len(),
{
    let mut i: usize = 0;
    while i < rows.len()
        invariant
            i <= rows.len(),
            forall|k: int| 0 <= k < i ==> row_views(rows@)[k].repo != repo,
        decreases rows.len() - i,
    {
        if rows[i].repo == repo {
            proof {
                lemma_find_row(row_views(rows@), repo as nat, i as int);
            }
            return i;
        }
        i = i + 1;
    }
    proof {
        lemma_find_row(row_views(rows@), repo as nat, i as int);
    }
    i
}

/// Returns the position of the first remote named `name`, or the number of
/// remotes where there is none.
pub fn remote_of(remotes: &Vec<Remote>, name: &str) -> (i: usize)
    ensures
        i == find_remote(remote_views(remotes@), name@),
        i <= remotes.len(),
{
    let mut i: usize = 0;
    while i < remotes.len()
        invariant
            i <= remotes.len(),
            forall|k: int| 0 <= k < i ==> remote_views(remotes@)[k].name != name@,
        decreases remotes.len() - i,
    {
        if same_text(remotes[i].name.as_str(), name) {
            proof {
                lemma_find_remote(remote_views(remotes@), name@, i as int);
            }
            return i;
        }
        i = i + 1;
    }
    proof {
        lemma_find_remote(remote_views(remotes@), name@, i as int);
    }
    i
}

/// Returns the position of the first location of `remote` of repository
/// `repo`, or the number of locations where there is none.
pub fn location_of(locations: &Vec<Location>, repo: usize, remote: Option<&str>) -> (i: usize)
    ensures
        i == find_location(
            location_views(locations@),
            repo as nat,
            crate::app::option_str_view(remote),
        ),
        i <= locations.len(),
{
    let ghost wanted = crate::app::option_str_view(remote);
    let mut i: usize = 0;
    while i < locations.len()
        invariant
            i <= locations.len(),
            wanted == crate::app::option_str_view(remote),
            forall|k: int|
                0 <= k < i ==> !(location_views(locations@)[k].repo == repo && location_views(
                    locations@,
                )[k].remote == wanted),
        decreases locations.len() - i,
    {
        let hit = locations[i].repo == repo && match (&locations[i].remote, remote) {
            (Some(a), Some(b)) => same_text(a.as_str(), b),
            (None, None) => true,
            _ => false,
        };
        if hit {
            proof {
                lemma_find_location(location_views(locations@), repo as nat, wanted, i as int);
            }
            return i;
        }
        i = i + 1;
    }
    proof {
        lemma_find_location(location_views(locations@), repo as nat, wanted, i as int);
    }
    i
}

/// Puts the remote `name` of a row in `state`: the first remote of that name
/// takes the state, or a remote of that name is added.
pub fn set_remote(remotes: &mut Vec<Remote>, name: &str, state: State)
    ensures
        remote_views(final(remotes)@) == with_remote(remote_views(old(remotes)@), name@, state),
{
    let at = remote_of(remotes, name);
    if at < remotes.len() {
        remotes.set(at, Remote { name: name.to_owned(), state: state });
        assert(remote_views(remotes@) =~= with_remote(remote_views(old(remotes)@), name@, state));
    } else {
        remotes.push(Remote { name: name.to_owned(), state: state });
        assert(remote_views(remotes@) =~= with_remote(remote_views(old(remotes)@), name@, state));
    }
}


// ----- layout ---------------------------------------------------------------
/// What the rows are ordered by: the name under which the repository is
/// shown, then its path.
pub open spec fn row_keys(rows: Seq<RowView>) -> Seq<KeyView> {
    rows.map_values(|r: RowView| KeyView { group: 0, first: r.name, second: r.path })
}

/// What the remotes of a row are ordered by: their names.
pub open spec fn remote_keys(remotes: Seq<RemoteView>) -> Seq<KeyView> {
    remotes.map_values(|r: RemoteView| KeyView { group: 0, first: r.name, second: Seq::empty() })
}

/// The remotes in alphabetical order.
pub open spec fn arranged(remotes: Seq<RemoteView>) -> Seq<RemoteView> {
    Seq::new(remotes.len(), |k: int| remotes[ordering(remote_keys(remotes))[k] as int])
}

/// The row with its remotes in alphabetical order.
pub open spec fn arranged_row(row: RowView) -> RowView {
    RowView { remotes: arranged(row.remotes), ..row }
}

/// The rows in the order in which they are drawn: by name, then by path,
/// each with its remotes in alphabetical order.
pub open spec fn arranged_rows(rows: Seq<RowView>) -> Seq<RowView> {
    Seq::new(rows.len(), |k: int| arranged_row(rows[ordering(row_keys(rows))[k] as int]))
}

/// The width of the widest name among `rows`: the width of the left column.
pub open spec fn widest(rows: Seq<RowView>) -> nat
    decreases rows.len(),
{
    if rows.len() == 0 {
        0
    } else {
        let before = widest(rows.drop_last());
        if width(rows.last().name) > before {
            width(rows.last().name)
        } else {
            before
        }
    }
}

/// No name is wider than the widest.
pub proof fn lemma_widest(rows: Seq<RowView>, i: int)
    requires
        0 <= i < rows.len(),
    ensures
        width(rows[i].name) <= widest(rows),
    decreases rows.len(),
{
    if i < rows.len() - 1 {
        lemma_widest(rows.drop_last(), i);
    }
}

/// `n` spaces.
pub open spec fn spaces(n: nat) -> Seq<char> {
    Seq::new(n, |i: int| ' ')
}

/// The columns that are left for a name `name_w` wide after it has been
/// padded to the width `column_w` of the left column, on a terminal `w`
/// columns wide.
pub open spec fn room_for(column_w: nat, name_w: nat, w: u16) -> nat {
    if column_w - name_w >= w {
        0
    } else {
        (w - (column_w - name_w)) as nat
    }
}

/// Whether the name of a repository can be shown in `room` columns: there
/// are two columns at least, and where the name is cut, its first character
/// is among what is left of it.
pub open spec fn name_fits(name: Seq<char>, room: nat) -> bool {
    room >= 2 && !(width(name) >= room && clipped(name, room - 1).len() == 0)
}

/// Whether the name of a remote can be shown where `remaining` columns are
/// left: there are three columns at least, and where the name is cut, its
/// first character is among what is left of it.
pub open spec fn remote_fits(name: Seq<char>, remaining: nat) -> bool {
    remaining >= 3 && !(width(name) + 1 >= remaining && clipped(name, remaining - 2).len() == 0)
}

/// A name that is cut and shown begins with its first character, and so
/// does the name of a remote.
pub proof fn lemma_cut_shows_first_character(name: Seq<char>, columns: nat)
    ensures
        name_fits(name, columns) && width(name) >= columns ==> shown_name(name, columns).len() >= 1
            && shown_name(name, columns)[0] == name[0],
        remote_fits(name, columns) && width(name) + 1 >= columns ==> shown_remote(name, columns).len()
            >= 1 && shown_remote(name, columns)[0] == name[0],
{
    crate::text::lemma_clipped_prefix(name, columns - 1);
    crate::text::lemma_clipped_prefix(name, columns - 2);
}

/// The name of a repository as it is shown in `room` columns: whole where
/// it leaves a column free, else clipped so that one is left for the
/// ellipsis.
pub open spec fn shown_name(name: Seq<char>, room: nat) -> Seq<char> {
    if width(name) >= room {
        clipped(name, room - 1)
    } else {
        name
    }
}

/// The name of a remote as it is shown where `remaining` columns are left:
/// whole where it fits behind its space and leaves a column free, else
/// clipped so that one is left for the ellipsis.
pub open spec fn shown_remote(name: Seq<char>, remaining: nat) -> Seq<char> {
    if width(name) + 1 >= remaining {
        clipped(name, remaining - 2)
    } else {
        name
    }
}

/// Where the remotes of repository `repo` are painted in row `y` when
/// `remaining` columns are left: one cell for each remote as long as the
/// next one can be shown, each a space behind the one before.
pub open spec fn remote_cells(
    repo: nat,
    remotes: Seq<RemoteView>,
    remaining: nat,
    w: u16,
    y: u16,
) -> Seq<LocationView>
    decreases remotes.len(),
{
    if remotes.len() == 0 || !remote_fits(remotes[0].name, remaining) {
        Seq::empty()
    } else {
        let shown = shown_remote(remotes[0].name, remaining);
        seq![
            LocationView {
                repo: repo,
                remote: Some(remotes[0].name),
                x: (w - (remaining - 2)) as u16,
                y: y,
                text: shown,
            },
        ] + remote_cells(repo, remotes.drop_first(), (remaining - width(shown) - 1) as nat, w, y)
    }
}

/// What the remotes add to the line of their row: each cell behind a space,
/// painted in the style of the remote's state.
pub open spec fn remote_line(remotes: Seq<RemoteView>, remaining: nat) -> Seq<char>
    decreases remotes.len(),
{
    if remotes.len() == 0 || !remote_fits(remotes[0].name, remaining) {
        Seq::empty()
    } else {
        let shown = shown_remote(remotes[0].name, remaining);
        " "@ + painted(state_style(remotes[0].state), shown) + remote_line(
            remotes.drop_first(),
            (remaining - width(shown) - 1) as nat,
        )
    }
}

/// Whether the remotes do not all fit in full where `remaining` columns are
/// left.
pub open spec fn remotes_cut(remotes: Seq<RemoteView>, remaining: nat) -> bool
    decreases remotes.len(),
{
    if remotes.len() == 0 {
        false
    } else if !remote_fits(remotes[0].name, remaining) {
        true
    } else {
        let shown = shown_remote(remotes[0].name, remaining);
        width(remotes[0].name) + 1 >= remaining || remotes_cut(
            remotes.drop_first(),
            (remaining - width(shown) - 1) as nat,
        )
    }
}

/// Where a row is painted: the name of the repository, right-aligned in the
/// left column, then its remotes. A row whose name cannot be shown has no
/// cell at all.
pub open spec fn row_locations(row: RowView, column_w: nat, w: u16, y: u16) -> Seq<LocationView> {
    let room = room_for(column_w, width(row.name), w);
    if !name_fits(row.name, room) {
        Seq::empty()
    } else {
        let shown = shown_name(row.name, room);
        seq![
            LocationView { repo: row.repo, remote: None, x: (w - room + 1) as u16, y: y, text: shown },
        ] + remote_cells(row.repo, row.remotes, (room - width(shown)) as nat, w, y)
    }
}

/// The ellipsis in the last column of row `y`.
pub open spec fn ellipsis_at(w: u16, y: u16) -> Seq<char> {
    goto_sequence(w, y) + "\u{2026}"@
}

/// What is written for a row whose repository has a summary of `kind`: an
/// ellipsis in the last column where something is cut, then the line from
/// the first column. A row whose name cannot be shown is nothing but the
/// ellipsis.
pub open spec fn row_text(row: RowView, kind: Kind, column_w: nat, w: u16, y: u16) -> Seq<char> {
    let room = room_for(column_w, width(row.name), w);
    if !name_fits(row.name, room) {
        ellipsis_at(w, y)
    } else {
        let shown = shown_name(row.name, room);
        let rest = (room - width(shown)) as nat;
        (if width(row.name) >= room || remotes_cut(row.remotes, rest) {
            ellipsis_at(w, y)
        } else {
            Seq::empty()
        }) + goto_sequence(1, y) + spaces((column_w - width(row.name)) as nat) + painted(
            name_style(kind),
            shown,
        ) + remote_line(row.remotes, rest)
    }
}

/// Where the first `upto` rows are painted, row by row from the top.
pub open spec fn rows_locations(rows: Seq<RowView>, column_w: nat, w: u16, upto: nat) -> Seq<LocationView>
    decreases upto,
{
    if upto == 0 {
        Seq::empty()
    } else {
        rows_locations(rows, column_w, w, (upto - 1) as nat) + row_locations(
            rows[upto - 1],
            column_w,
            w,
            upto as u16,
        )
    }
}

/// What is written for the first `upto` rows, row by row from the top.
pub open spec fn rows_text(
    rows: Seq<RowView>,
    results: Seq<Seq<NoteView>>,
    column_w: nat,
    w: u16,
    upto: nat,
) -> Seq<char>
    decreases upto,
{
    if upto == 0 {
        Seq::empty()
    } else {
        rows_text(rows, results, column_w, w, (upto - 1) as nat) + row_text(
            rows[upto - 1],
            worst(results[rows[upto - 1].repo as int]),
            column_w,
            w,
            upto as u16,
        )
    }
}

/// How many rows can be drawn at all: rows are numbered in sixteen bits.
pub open spec fn drawable(n: nat) -> nat {
    if n > 65535 {
        65535
    } else {
        n
    }
}

/// By how many rows `n` repositories, and the banner of a canceled run,
/// exceed the height `h` of the terminal.
pub open spec fn overflow(n: nat, canceled: bool, h: u16) -> nat {
    let needed = n + if canceled {
        1nat
    } else {
        0nat
    };
    if h < needed {
        (needed - h) as nat
    } else {
        0
    }
}

/// Whether the rows stop at the last row of the terminal: there are more
/// rows than fit, and the terminal has a row.
pub open spec fn is_cut(n: nat, canceled: bool, h: u16) -> bool {
    overflow(n, canceled, h) > 0 && 1 <= h <= drawable(n)
}

/// How many rows are drawn in full.
pub open spec fn full_rows(n: nat, canceled: bool, h: u16) -> nat {
    if is_cut(n, canceled, h) {
        (h - 1) as nat
    } else {
        drawable(n)
    }
}

/// The row of the banner: the one beneath the `full` rows that are drawn.
pub open spec fn banner_row(full: nat) -> u16 {
    if full < 65535 {
        (full + 1) as u16
    } else {
        65535
    }
}

/// A message as it is shown on a terminal `w` columns wide: whole where it
/// fits, else clipped with an ellipsis in place of what is cut.
pub open spec fn fitted(message: Seq<char>, w: u16) -> Seq<char> {
    if width(message) > w {
        clipped(message, w - 1) + "\u{2026}"@
    } else {
        message
    }
}

/// The message that stands in the last row in place of `hidden` rows.
pub open spec fn overflow_message(hidden: nat) -> Seq<char> {
    "\u{2026}"@ + decimal(hidden) + " more not shown"@
}

/// The banner of a canceled run.
pub open spec fn banner() -> Seq<char> {
    "pending fetches canceled; allowing in-flight fetches to finish (hit Ctrl-c again to terminate unsafely)"@
}

/// The bold red style of the banner.
pub open spec fn banner_style() -> Style {
    Style { foreground: Some(Colour::Red), is_bold: true, ..plain() }
}

/// Returns `n` spaces.
fn spaces_text(n: usize) -> (r: String)
    ensures
        r@ == spaces(n as nat),
{
    proof {
        reveal_strlit(" ");
    }
    let mut r = String::new();
    let mut i: usize = 0;
    assert(r@ =~= spaces(0));
    while i < n
        invariant
            i <= n,
            r@ == spaces(i as nat),
            " "@ == seq![' '],
        decreases n - i,
    {
        r.append(" ");
        assert(r@ =~= spaces((i + 1) as nat));
        i = i + 1;
    }
    r
}

/// Returns `message` as it is shown on a terminal `w` columns wide.
fn fit(message: &str, w: u16) -> (r: String)
    ensures
        r@ == fitted(message@, w),
{
    if byte_len(message) > w as usize {
        let limit = if w == 0 {
            0
        } else {
            (w - 1) as usize
        };
        proof {
            if w == 0 {
                lemma_clipped_width(message@, 0);
                lemma_clipped_width(message@, -1);
                assert(clipped(message@, 0) == clipped(message@, -1));
            }
        }
        let mut r = clip(message, limit).to_owned();
        r.append("\u{2026}");
        r
    } else {
        message.to_owned()
    }
}

/// Returns the keys by which the remotes of a row are ordered.
fn remote_sort_keys(remotes: &Vec<Remote>) -> (keys: Vec<SortKey>)
    ensures
        key_views(keys@) == remote_keys(remote_views(remotes@)),
{
    let mut keys: Vec<SortKey> = Vec::new();
    let mut i: usize = 0;
    while i < remotes.len()
        invariant
            i <= remotes.len(),
            key_views(keys@) =~= remote_keys(remote_views(remotes@).take(i as int)),
        decreases remotes.len() - i,
    {
        let ghost before = keys@;
        let ghost key = KeyView { group: 0, first: remotes@[i as int].name@, second: Seq::<char>::empty() };
        keys.push(SortKey { group: 0, first: remotes[i].name.clone(), second: String::new() });
        assert(keys@.last()@ == key);
        assert(key_views(keys@) =~= key_views(before).push(key));
        assert(remote_views(remotes@).take(i + 1) =~= remote_views(remotes@).take(i as int).push(
            remotes@[i as int]@,
        ));
        assert(remote_keys(remote_views(remotes@).take(i + 1)) =~= remote_keys(
            remote_views(remotes@).take(i as int),
        ).push(key));
        i = i + 1;
    }
    assert(remote_views(remotes@).take(i as int) =~= remote_views(remotes@));
    keys
}

/// Returns the keys by which the rows are ordered.
fn row_sort_keys(rows: &Vec<Row>) -> (keys: Vec<SortKey>)
    ensures
        key_views(keys@) == row_keys(row_views(rows@)),
{
    let mut keys: Vec<SortKey> = Vec::new();
    let mut i: usize = 0;
    while i < rows.len()
        invariant
            i <= rows.len(),
            key_views(keys@) =~= row_keys(row_views(rows@).take(i as int)),
        decreases rows.len() - i,
    {
        let ghost before = keys@;
        let ghost key = KeyView { group: 0, first: rows@[i as int].name@, second: rows@[i as int].path@ };
        keys.push(SortKey { group: 0, first: rows[i].name.clone(), second: rows[i].path.clone() });
        assert(keys@.last()@ == key);
        assert(key_views(keys@) =~= key_views(before).push(key));
        assert(row_views(rows@).take(i + 1) =~= row_views(rows@).take(i as int).push(rows@[i as int]@));
        assert(row_keys(row_views(rows@).take(i + 1)) =~= row_keys(row_views(rows@).take(i as int)).push(
            key,
        ));
        i = i + 1;
    }
    assert(row_views(rows@).take(i as int) =~= row_views(rows@));
    keys
}

/// Returns the width of the widest name among `rows`.
fn column_width(rows: &Vec<Row>) -> (r: usize)
    ensures
        r == widest(row_views(rows@)),
{
    let mut r: usize = 0;
    let mut i: usize = 0;
    assert(row_views(rows@).take(0) =~= Seq::empty());
    while i < rows.len()
        invariant
            i <= rows.len(),
            r == widest(row_views(rows@).take(i as int)),
        decreases rows.len() - i,
    {
        assert(row_views(rows@).take(i + 1).drop_last() =~= row_views(rows@).take(i as int));
        assert(row_views(rows@).take(i + 1).last() == rows@[i as int]@);
        let n = byte_len(rows[i].name.as_str());
        if n > r {
            r = n;
        }
        i = i + 1;
    }
    assert(row_views(rows@).take(i as int) =~= row_views(rows@));
    r
}

/// Draws the remotes of a row where `rest` columns are left: remembers
/// where their cells are painted, adds them to the line of the row, and
/// returns whether something was cut.
fn draw_remotes(
    locations: &mut Vec<Location>,
    line: &mut String,
    row: &Row,
    rest: usize,
    w: u16,
    y: u16,
) -> (cut: bool)
    requires
        rest <= w,
        y >= 1,
        forall|i: int| 0 <= i < old(locations)@.len() ==> (#[trigger] old(locations)@[i]).y >= 1,
    ensures
        location_views(final(locations)@) == location_views(old(locations)@) + remote_cells(
            row@.repo,
            arranged(row@.remotes),
            rest as nat,
            w,
            y,
        ),
        final(line)@ == old(line)@ + remote_line(arranged(row@.remotes), rest as nat),
        cut == remotes_cut(arranged(row@.remotes), rest as nat),
        forall|i: int| 0 <= i < final(locations)@.len() ==> (#[trigger] final(locations)@[i]).y >= 1,
{
    let ghost sorted = arranged(row@.remotes);
    let ghost own = location_views(locations@);
    let ghost line0 = line@;
    let mut cut = false;
    let mut remaining: usize = rest;
    let keys = remote_sort_keys(&row.remotes);
    let order = stable_order(&keys);
    proof {
        lemma_ordering(remote_keys(row@.remotes), order@);
        assert(sorted.skip(0) =~= sorted);
    }
    let mut j: usize = 0;
    let mut stopped = false;
    while j < order.len() && !stopped
        invariant
            j <= order.len(),
            order@.len() == row.remotes@.len(),
            sorted == arranged(row@.remotes),
            sorted.len() == order@.len(),
            ordering(remote_keys(row@.remotes)) == order@,
            is_stable_order(remote_keys(row@.remotes), order@),
            remaining <= rest <= w,
            y >= 1,
            stopped ==> j < order.len() && !remote_fits(sorted[j as int].name, remaining as nat),
            location_views(locations@) + remote_cells(
                row@.repo,
                sorted.skip(j as int),
                remaining as nat,
                w,
                y,
            ) == own + remote_cells(row@.repo, sorted, rest as nat, w, y),
            line@ + remote_line(sorted.skip(j as int), remaining as nat) == line0 + remote_line(
                sorted,
                rest as nat,
            ),
            (cut || remotes_cut(sorted.skip(j as int), remaining as nat)) == remotes_cut(
                sorted,
                rest as nat,
            ),
            forall|i: int| 0 <= i < locations@.len() ==> (#[trigger] locations@[i]).y >= 1,
        decreases
                order.len() - j,
                if stopped {
                    0int
                } else {
                    1int
                },
    {
        let ghost tail = sorted.skip(j as int);
        let ghost seen = location_views(locations@);
        let ghost line_before = line@;
        assert(order@[j as int] < row.remotes@.len());
        let remote = &row.remotes[order[j]];
        assert(tail[0] == remote@);
        assert(tail.drop_first() =~= sorted.skip(j + 1));
        let full = remote.name.as_str();
        if remaining < 3 {
            stopped = true;
        } else {
            let full_w = byte_len(full);
            proof {
                lemma_clipped_width(full@, remaining - 2);
            }
            let truncated = full_w >= remaining - 1;
            let text: &str = if truncated {
                clip(full, remaining - 2)
            } else {
                full
            };
            assert(text@ == shown_remote(full@, remaining as nat));
            if truncated && text.is_empty() {
                stopped = true;
            } else {
                assert(remote_fits(full@, remaining as nat));
                let text_w = byte_len(text);
                if truncated {
                    cut = true;
                }
                let painted_text = paint(style_for_state(&remote.state), text);
                line.append(" ");
                line.append(painted_text.as_str());
                let cell = Location {
                    repo: row.repo,
                    remote: Some(remote.name.clone()),
                    x: (w as usize - (remaining - 2)) as u16,
                    y: y,
                    text: text.to_owned(),
                };
                locations.push(cell);
                let ghost after = (remaining - text_w - 1) as nat;
                proof {
                    let step = seq![cell@];
                    let later = remote_cells(row@.repo, sorted.skip(j + 1), after, w, y);
                    assert(location_views(locations@) =~= seen.push(cell@));
                    assert(remote_cells(row@.repo, tail, remaining as nat, w, y) == step + later);
                    assert(seen.push(cell@) + later =~= seen + (step + later));
                    let more = remote_line(sorted.skip(j + 1), after);
                    let piece = " "@ + painted_text@;
                    assert(remote_line(tail, remaining as nat) == piece + more);
                    assert(line@ =~= line_before + piece);
                    assert(line_before + piece + more =~= line_before + (piece + more));
                }
                remaining = remaining - text_w - 1;
                j = j + 1;
            }
        }
    }
    if j < order.len() {
        cut = true;
    }
    proof {
        let tail = sorted.skip(j as int);
        if j < order.len() {
            assert(tail[0] == sorted[j as int]);
        }
        assert(remote_cells(row@.repo, tail, remaining as nat, w, y) =~= Seq::empty());
        assert(remote_line(tail, remaining as nat) =~= Seq::empty());
        assert(location_views(locations@) =~= own + remote_cells(row@.repo, sorted, rest as nat, w, y));
        assert(line@ =~= line0 + remote_line(sorted, rest as nat));
    }
    cut
}

/// Draws one row: remembers where its cells are painted and writes its text
/// to `out`.
#[verifier::rlimit(60)]
fn draw_row(
    locations: &mut Vec<Location>,
    out: &mut String,
    row: &Row,
    kind: Kind,
    column_w: usize,
    w: u16,
    y: u16,
)
    requires
        width(row@.name) <= column_w,
        y >= 1,
        forall|i: int| 0 <= i < old(locations)@.len() ==> (#[trigger] old(locations)@[i]).y >= 1,
    ensures
        location_views(final(locations)@) == location_views(old(locations)@) + row_locations(
            arranged_row(row@),
            column_w as nat,
            w,
            y,
        ),
        final(out)@ == old(out)@ + row_text(arranged_row(row@), kind, column_w as nat, w, y),
        forall|i: int| 0 <= i < final(locations)@.len() ==> (#[trigger] final(locations)@[i]).y >= 1,
{
    let ghost base = location_views(locations@);
    let ghost sorted = arranged_row(row@);
    let name = row.name.as_str();
    let n = byte_len(name);
    let pad = column_w - n;
    let room: usize = if pad >= w as usize {
        0
    } else {
        w as usize - pad
    };
    assert(room == room_for(column_w as nat, width(row@.name), w));
    proof {
        lemma_clipped_width(row@.name, room - 1);
    }
    let shown: &str = if room >= 2 && n >= room {
        clip(name, room - 1)
    } else {
        name
    };
    let fits = room >= 2 && !(n >= room && shown.is_empty());
    assert(fits == name_fits(row@.name, room as nat));
    if !fits {
        let place = goto(w, y);
        out.append(place.as_str());
        out.append("\u{2026}");
        assert(row_text(sorted, kind, column_w as nat, w, y) == ellipsis_at(w, y));
        assert(out@ =~= old(out)@ + ellipsis_at(w, y));
        assert(row_locations(sorted, column_w as nat, w, y) =~= Seq::empty());
        assert(location_views(locations@) =~= base + Seq::<LocationView>::empty());
        return ;
    }
    assert(shown@ == shown_name(row@.name, room as nat));
    let shown_w = byte_len(shown);
    let padding = spaces_text(pad);
    let painted_name = paint(style_for_kind(&kind).bold(), shown);
    let mut line = String::new();
    line.append(padding.as_str());
    line.append(painted_name.as_str());
    let cell = Location {
        repo: row.repo,
        remote: None,
        x: (w as usize - room + 1) as u16,
        y: y,
        text: shown.to_owned(),
    };
    locations.push(cell);
    assert(location_views(locations@) =~= base.push(cell@));
    let rest: usize = room - shown_w;
    let cut_remotes = draw_remotes(locations, &mut line, row, rest, w, y);
    let cut = n >= room || cut_remotes;
    let ghost cells = remote_cells(row@.repo, sorted.remotes, rest as nat, w, y);
    let ghost tail = remote_line(sorted.remotes, rest as nat);
    proof {
        assert(row_locations(sorted, column_w as nat, w, y) == seq![cell@] + cells);
        assert(location_views(locations@) =~= base + (seq![cell@] + cells));
        assert(line@ =~= padding@ + painted_name@ + tail);
    }
    let ghost mark = if cut {
        ellipsis_at(w, y)
    } else {
        Seq::<char>::empty()
    };
    if cut {
        let place = goto(w, y);
        out.append(place.as_str());
        out.append("\u{2026}");
    }
    assert(out@ =~= old(out)@ + mark);
    let home = goto(1, y);
    out.append(home.as_str());
    out.append(line.as_str());
    proof {
        assert(row_text(sorted, kind, column_w as nat, w, y) == mark + goto_sequence(1, y) + padding@
            + painted_name@ + tail);
        assert(out@ =~= old(out)@ + (mark + goto_sequence(1, y) + padding@ + painted_name@ + tail));
    }
}

// ----- Screen ---------------------------------------------------------------
/// The dashboard as a mathematical value.
pub ghost struct Screen {
    /// The repositories with their remotes, in the order in which they were
    /// added.
    pub rows: Seq<RowView>,
    /// The changes of state that wait to be painted, oldest first.
    pub updates: Seq<UpdateView>,
    /// Whether the user has asked for the run to end.
    pub canceled: bool,
    /// Width and height for which the dashboard was last drawn in full;
    /// both zero before the first draw.
    pub drawn: (u16, u16),
    /// The size to which the terminal is being resized, with the time at
    /// which it was first seen, in milliseconds.
    pub debounce: Option<(u16, u16, u64)>,
    /// What was painted where at the last full draw.
    pub locations: Seq<LocationView>,
}

/// The rows after a remote has been added to repository `repo`, shown as
/// `name` and found at `path`: the remote is pending in the first row of the
/// repository, or in a new row at the end.
pub open spec fn rows_with_remote(
    rows: Seq<RowView>,
    repo: nat,
    name: Seq<char>,
    path: Seq<char>,
    remote: Seq<char>,
) -> Seq<RowView> {
    let at = find_row(rows, repo);
    if at < rows.len() {
        rows.update(
            at,
            RowView { remotes: with_remote(rows[at].remotes, remote, State::Pending), ..rows[at] },
        )
    } else {
        rows.push(
            RowView {
                repo: repo,
                name: name,
                path: path,
                remotes: seq![RemoteView { name: remote, state: State::Pending }],
            },
        )
    }
}

/// The rows after `update` has been applied: the remote takes the new state
/// in the first row of its repository. An update for a repository without a
/// row changes nothing.
pub open spec fn rows_after(rows: Seq<RowView>, update: UpdateView) -> Seq<RowView> {
    let at = find_row(rows, update.repo);
    if at < rows.len() {
        rows.update(
            at,
            RowView { remotes: with_remote(rows[at].remotes, update.remote, update.state), ..rows[at] },
        )
    } else {
        rows
    }
}

/// The rows after `updates` have been applied, oldest first.
pub open spec fn rows_after_all(rows: Seq<RowView>, updates: Seq<UpdateView>) -> Seq<RowView>
    decreases updates.len(),
{
    if updates.len() == 0 {
        rows
    } else {
        rows_after(rows_after_all(rows, updates.drop_last()), updates.last())
    }
}

/// What is written to repaint the cell of `remote` of repository `repo` in
/// `style`: the cursor is moved to the cell and its text painted anew.
/// Nothing is written for a cell that was not drawn.
pub open spec fn repaint(
    locations: Seq<LocationView>,
    repo: nat,
    remote: Option<Seq<char>>,
    style: Style,
) -> Seq<char> {
    let at = find_location(locations, repo, remote);
    if at < locations.len() {
        goto_sequence(locations[at].x, locations[at].y) + painted(style, locations[at].text)
    } else {
        Seq::empty()
    }
}

/// What is written for `update`: the cell of the remote is repainted in the
/// style of its new state, then the cell of the repository in the style of
/// the worst kind in its summary.
pub open spec fn update_text(
    locations: Seq<LocationView>,
    results: Seq<Seq<NoteView>>,
    update: UpdateView,
) -> Seq<char> {
    repaint(locations, update.repo, Some(update.remote), state_style(update.state)) + repaint(
        locations,
        update.repo,
        None,
        name_style(worst(results[update.repo as int])),
    )
}

/// What is written for `updates`, oldest first.
pub open spec fn updates_text(
    locations: Seq<LocationView>,
    results: Seq<Seq<NoteView>>,
    updates: Seq<UpdateView>,
) -> Seq<char>
    decreases updates.len(),
{
    if updates.len() == 0 {
        Seq::empty()
    } else {
        updates_text(locations, results, updates.drop_last()) + update_text(
            locations,
            results,
            updates.last(),
        )
    }
}

impl Screen {
    /// Every row and every waiting update is of one of the first `n`
    /// repositories.
    pub open spec fn covered_by(self, n: nat) -> bool {
        &&& forall|i: int| 0 <= i < self.rows.len() ==> (#[trigger] self.rows[i]).repo < n
        &&& forall|i: int| 0 <= i < self.updates.len() ==> (#[trigger] self.updates[i]).repo < n
    }

    /// Every location is on a row of the terminal, which are counted from
    /// one.
    pub open spec fn wf(self) -> bool {
        forall|i: int| 0 <= i < self.locations.len() ==> (#[trigger] self.locations[i]).y >= 1
    }

    /// The dashboard after the waiting updates have been applied.
    pub open spec fn flushed(self) -> Screen {
        Screen { rows: rows_after_all(self.rows, self.updates), updates: Seq::empty(), ..self }
    }

    /// What is written when the waiting updates are painted: the changed
    /// cells, then the sequence that hides the cursor.
    pub open spec fn flush_text(self, results: Seq<Seq<NoteView>>) -> Seq<char> {
        updates_text(self.locations, results, self.updates) + "\x1B[?25l"@
    }

    /// Where the cells of a full draw are painted on a terminal `w` columns
    /// wide and `h` rows high. The states of the remotes and the summaries of
    /// the repositories have no part in it.
    pub open spec fn frame_locations(self, w: u16, h: u16) -> Seq<LocationView> {
        rows_locations(
            arranged_rows(self.rows),
            widest(self.rows),
            w,
            full_rows(self.rows.len(), self.canceled, h),
        )
    }

    /// What stands in the last row of the terminal in place of the rows that
    /// do not fit, where the rows are cut and the run is not canceled.
    pub open spec fn overflow_text(self, w: u16, h: u16) -> Seq<char> {
        if is_cut(self.rows.len(), self.canceled, h) && !self.canceled {
            goto_sequence(1, h) + fitted(
                overflow_message(overflow(self.rows.len(), self.canceled, h) + 1),
                w,
            )
        } else {
            Seq::empty()
        }
    }

    /// The banner of a canceled run, in the row beneath the rows that are
    /// drawn: where the rows are cut, that is the last row of the terminal.
    pub open spec fn banner_text(self, w: u16, h: u16) -> Seq<char> {
        if self.canceled {
            goto_sequence(1, banner_row(full_rows(self.rows.len(), self.canceled, h))) + painted(
                banner_style(),
                fitted(banner(), w),
            )
        } else {
            Seq::empty()
        }
    }

    /// What a full draw writes before the waiting updates are painted: the
    /// sequence that clears the screen, the rows, the message for the rows
    /// that do not fit, the banner.
    pub open spec fn frame_text(self, results: Seq<Seq<NoteView>>, w: u16, h: u16) -> Seq<char> {
        "\x1B[2J"@ + rows_text(
            arranged_rows(self.rows),
            results,
            widest(self.rows),
            w,
            full_rows(self.rows.len(), self.canceled, h),
        ) + self.overflow_text(w, h) + self.banner_text(w, h)
    }

    /// The dashboard after its frame has been drawn for a terminal `w`
    /// columns wide and `h` rows high.
    pub open spec fn framed(self, w: u16, h: u16) -> Screen {
        Screen { locations: self.frame_locations(w, h), drawn: (w, h), ..self }
    }

    /// The dashboard after a full draw: the frame is drawn, then the waiting
    /// updates are applied.
    pub open spec fn redrawn(self, w: u16, h: u16) -> Screen {
        self.framed(w, h).flushed()
    }

    /// What a full draw writes.
    pub open spec fn draw_text(self, results: Seq<Seq<NoteView>>, w: u16, h: u16) -> Seq<char> {
        self.frame_text(results, w, h) + self.framed(w, h).flush_text(results)
    }

    /// Whether the terminal has had the size for which the resize is being
    /// debounced for the whole settle window.
    pub open spec fn settled(self, w: u16, h: u16, now: u64) -> bool {
        self.debounce matches Some(seen) && seen.0 == w && seen.1 == h && now >= seen.2 && now
            - seen.2 >= crate::cmd::pull::DEBOUNCE_MILLIS
    }

    /// What an update does, given the size of the terminal and the time.
    pub open spec fn refresh(self, w: u16, h: u16, now: u64) -> Refresh {
        if self.drawn == (0u16, 0u16) {
            Refresh::First
        } else {
            match self.debounce {
                Some(seen) => if self.settled(w, h, now) {
                    Refresh::Draw
                } else if seen.0 == w && seen.1 == h {
                    Refresh::Wait
                } else {
                    Refresh::Debounce
                },
                None => if self.drawn != (w, h) {
                    Refresh::Debounce
                } else {
                    Refresh::Flush
                },
            }
        }
    }

    /// The dashboard after an update.
    pub open spec fn updated(self, w: u16, h: u16, now: u64) -> Screen {
        match self.refresh(w, h, now) {
            Refresh::First => self.redrawn(w, h),
            Refresh::Draw => (Screen { debounce: None, ..self }).redrawn(w, h),
            Refresh::Debounce => Screen { debounce: Some((w, h, now)), ..self },
            Refresh::Wait => self,
            Refresh::Flush => self.flushed(),
        }
    }

    /// What an update writes.
    pub open spec fn update_text(self, results: Seq<Seq<NoteView>>, w: u16, h: u16, now: u64) -> Seq<
        char,
    > {
        match self.refresh(w, h, now) {
            Refresh::First => self.draw_text(results, w, h),
            Refresh::Draw => self.draw_text(results, w, h),
            Refresh::Flush => self.flush_text(results),
            _ => Seq::empty(),
        }
    }

    /// The dashboard after the run has been canceled.
    pub open spec fn cancel(self, w: u16, h: u16) -> Screen {
        if self.canceled {
            self
        } else {
            (Screen { canceled: true, ..self }).redrawn(w, h)
        }
    }

    /// What is written when the run is canceled: a full draw with the
    /// banner, and the cursor hidden once more.
    pub open spec fn cancel_text(self, results: Seq<Seq<NoteView>>, w: u16, h: u16) -> Seq<char> {
        if self.canceled {
            Seq::empty()
        } else {
            (Screen { canceled: true, ..self }).draw_text(results, w, h) + "\x1B[?25l"@
        }
    }
}

/// What an update of the dashboard does.
pub ghost enum Refresh {
    /// Nothing has been drawn yet: the dashboard is drawn in full.
    First,
    /// The size of the terminal has settled: the resize timer is stopped and
    /// the dashboard is drawn in full.
    Draw,
    /// The resize timer is started, or started anew.
    Debounce,
    /// Nothing: the terminal is being resized and has not settled.
    Wait,
    /// The waiting updates are painted.
    Flush,
}

/// What the teardown writes: the sequences that clear the screen and show
/// the cursor, and a line feed.
pub open spec fn cleanup_text() -> Seq<char> {
    "\x1B[2J"@ + "\x1B[?25h"@ + "\n"@
}

/// The first row of a repository is sought among the rows.
pub proof fn lemma_find_row_bounds(rows: Seq<RowView>, repo: nat)
    ensures
        0 <= find_row(rows, repo) <= rows.len(),
    decreases rows.len(),
{
    if rows.len() > 0 && rows[0].repo != repo {
        lemma_find_row_bounds(rows.drop_first(), repo);
    }
}

/// Applying updates adds no row and changes the repository of none.
pub proof fn lemma_rows_after_all(rows: Seq<RowView>, updates: Seq<UpdateView>)
    ensures
        rows_after_all(rows, updates).len() == rows.len(),
        forall|i: int|
            0 <= i < rows.len() ==> (#[trigger] rows_after_all(rows, updates)[i]).repo == rows[i].repo
                && rows_after_all(rows, updates)[i].name == rows[i].name && rows_after_all(
                rows,
                updates,
            )[i].path == rows[i].path,
    decreases updates.len(),
{
    if updates.len() > 0 {
        lemma_rows_after_all(rows, updates.drop_last());
        lemma_find_row_bounds(rows_after_all(rows, updates.drop_last()), updates.last().repo);
    }
}

/// A dashboard whose rows and updates are of known repositories stays so
/// when its updates are applied.
pub proof fn lemma_flushed_covered(s: Screen, n: nat)
    requires
        s.covered_by(n),
    ensures
        s.flushed().covered_by(n),
{
    lemma_rows_after_all(s.rows, s.updates);
}

// ----- UI -------------------------------------------------------------------
/// Manages the user interface during fetch and fast-forward. It keeps the
/// state of every remote and what was painted where, and returns what is to
/// be written to the terminal.
pub struct UI {
    /// The repositories with their remotes and the current `State` of each.
    rows: Vec<Row>,
    /// Queue of updates to be made next time `process_updates` is called.
    updates: Vec<Update>,
    /// Indicates whether the user has terminated the program.
    canceled: bool,
    /// Width and height of the drawn UI.
    drawn: (u16, u16),
    /// Holds the terminal resize debounce state: the new size and the time, in
    /// milliseconds, at which it was first seen.
    debounce: Option<(u16, u16, u64)>,
    /// Cache of all strings drawn to the screen as well as their location.
    locations: Vec<Location>,
}

impl View for UI {
    type V = Screen;

    closed spec fn view(&self) -> Screen {
        Screen {
            rows: row_views(self.rows@),
            updates: update_views(self.updates@),
            canceled: self.canceled,
            drawn: self.drawn,
            debounce: self.debounce,
            locations: location_views(self.locations@),
        }
    }
}

impl UI {
    /// Creates and returns a new `UI` instance: no rows, nothing drawn.
    pub fn new() -> (r: Self)
        ensures
            r@ == (Screen {
                rows: Seq::empty(),
                updates: Seq::empty(),
                canceled: false,
                drawn: (0u16, 0u16),
                debounce: None,
                locations: Seq::empty(),
            }),
    {
        let r = Self {
            rows: Vec::new(),
            updates: Vec::new(),
            canceled: false,
            drawn: (0, 0),
            debounce: None,
            locations: Vec::new(),
        };
        assert(r@.rows =~= Seq::empty());
        assert(r@.updates =~= Seq::empty());
        assert(r@.locations =~= Seq::empty());
        r
    }

    /// Adds remote named `remote` for repository `repo` to the UI. The
    /// repository is the one at position `id` of the run.
    pub fn push_remote(&mut self, id: usize, repo: &Repo, remote: &str)
        ensures
            final(self)@ == (Screen {
                rows: rows_with_remote(
                    old(self)@.rows,
                    id as nat,
                    crate::app::display_name(repo@.name, repo@.path)->0,
                    repo@.path,
                    remote@,
                ),
                ..old(self)@
            }),
    {
        let at = row_of(&self.rows, id);
        if at < self.rows.len() {
            let ghost before = self.rows@;
            set_remote(&mut self.rows[at].remotes, remote, State::Pending);
            assert(row_views(self.rows@) =~= rows_with_remote(
                row_views(before),
                id as nat,
                crate::app::display_name(repo@.name, repo@.path)->0,
                repo@.path,
                remote@,
            ));
        } else {
            let ghost before = self.rows@;
            let mut remotes: Vec<Remote> = Vec::new();
            remotes.push(Remote { name: remote.to_owned(), state: State::Pending });
            let row = Row {
                repo: id,
                name: repo.name_or_default().to_owned(),
                path: repo.path().to_owned(),
                remotes: remotes,
            };
            assert(row@.remotes =~= seq![RemoteView { name: remote@, state: State::Pending }]);
            self.rows.push(row);
            assert(row_views(self.rows@) =~= row_views(before).push(row@));
        }
    }

    /// A dashboard holds no more rows, and a row no more remotes, than a
    /// machine can count.
    pub proof fn lemma_rows_fit(&self)
        ensures
            self@.rows.len() <= usize::MAX,
            forall|i: int| 0 <= i < self@.rows.len() ==> (#[trigger] self@.rows[i]).remotes.len() <= usize::MAX,
    {
        assert(self@.rows.len() == self.rows.len());
        assert forall|i: int| 0 <= i < self@.rows.len() implies (#[trigger] self@.rows[i]).remotes.len()
            <= usize::MAX by {
            assert(self@.rows[i].remotes.len() == self.rows@[i].remotes.len());
        }
    }

    /// Notifies the UI of an update to the state of a remote.
    ///
    /// Note that updates are queued, and are not reflected in the UI until the
    /// `update()` method is called.
    pub fn update_state(&mut self, repo: usize, remote: &str, state: State)
        ensures
            final(self)@ == (Screen {
                updates: old(self)@.updates.push(
                    UpdateView { repo: repo as nat, remote: remote@, state: state },
                ),
                ..old(self)@
            }),
    {
        let ghost before = self.updates@;
        let update = Update { repo: repo, remote: remote.to_owned(), state: state };
        self.updates.push(update);
        assert(update_views(self.updates@) =~= update_views(before).push(update@));
    }

    /// Returns whether every row and every waiting update is of a repository
    /// that `results` has a summary for.
    pub fn covered_by(&self, results: &Results) -> (r: bool)
        ensures
            r == self@.covered_by(results@.len()),
    {
        let n = results.len();
        let mut i: usize = 0;
        while i < self.rows.len()
            invariant
                i <= self.rows.len(),
                n == results@.len(),
                forall|k: int| 0 <= k < i ==> (#[trigger] self@.rows[k]).repo < n,
            decreases self.rows.len() - i,
        {
            if self.rows[i].repo >= n {
                assert(self@.rows[i as int].repo >= n);
                return false;
            }
            i = i + 1;
        }
        let mut j: usize = 0;
        while j < self.updates.len()
            invariant
                j <= self.updates.len(),
                n == results@.len(),
                forall|k: int| 0 <= k < self@.rows.len() ==> (#[trigger] self@.rows[k]).repo < n,
                forall|k: int| 0 <= k < j ==> (#[trigger] self@.updates[k]).repo < n,
            decreases self.updates.len() - j,
        {
            if self.updates[j].repo >= n {
                assert(self@.updates[j as int].repo >= n);
                return false;
            }
            j = j + 1;
        }
        true
    }

    /// Writes what repaints the cell of `remote` of repository `repo` in
    /// `style` to `out`.
    fn repaint(&self, out: &mut String, repo: usize, remote: Option<&str>, style: Style)
        requires
            self@.wf(),
        ensures
            final(out)@ == old(out)@ + repaint(
                self@.locations,
                repo as nat,
                crate::app::option_str_view(remote),
                style,
            ),
    {
        let at = location_of(&self.locations, repo, remote);
        if at < self.locations.len() {
            let location = &self.locations[at];
            assert(self@.locations[at as int] == location@);
            out.append(goto(location.x, location.y).as_str());
            out.append(paint(style, location.text.as_str()).as_str());
            assert(out@ =~= old(out)@ + repaint(
                self@.locations,
                repo as nat,
                crate::app::option_str_view(remote),
                style,
            ));
        } else {
            assert(out@ =~= old(out)@ + Seq::<char>::empty());
        }
    }

    /// Processes updates in the queue, updating internal state and returning
    /// what repaints the cells that changed.
    pub fn process_updates(&mut self, results: &Results) -> (r: String)
        requires
            old(self)@.wf(),
            old(self)@.covered_by(results@.len()),
        ensures
            final(self)@ == old(self)@.flushed(),
            final(self)@.wf(),
            final(self)@.covered_by(results@.len()),
            r@ == old(self)@.flush_text(results@),
    {
        let mut out = String::new();
        let ghost start = self@;
        proof {
            lemma_flushed_covered(start, results@.len());
        }
        let mut i: usize = 0;
        assert(start.updates.take(0) =~= Seq::empty());
        while i < self.updates.len()
            invariant
                i <= self.updates.len(),
                start == old(self)@,
                start.wf(),
                start.covered_by(results@.len()),
                self@ == (Screen {
                    rows: rows_after_all(start.rows, start.updates.take(i as int)),
                    ..start
                }),
                out@ == updates_text(start.locations, results@, start.updates.take(i as int)),
            decreases self.updates.len() - i,
        {
            let ghost before_rows = self.rows@;
            let ghost done = start.updates.take(i as int);
            assert(start.updates.take(i + 1).drop_last() =~= done);
            assert(start.updates.take(i + 1).last() == start.updates[i as int]);
            assert(start.updates[i as int] == self.updates@[i as int]@);
            let repo = self.updates[i].repo;
            let state = self.updates[i].state;
            let remote = self.updates[i].remote.clone();
            self.repaint(&mut out, repo, Some(remote.as_str()), style_for_state(&state));
            let kind = match results.get(repo) {
                Some(summary) => summary.kind(),
                None => Kind::Neutral,
            };
            self.repaint(&mut out, repo, None, style_for_kind(&kind).bold());
            let at = row_of(&self.rows, repo);
            if at < self.rows.len() {
                set_remote(&mut self.rows[at].remotes, remote.as_str(), state);
                assert(row_views(self.rows@) =~= rows_after(
                    row_views(before_rows),
                    start.updates[i as int],
                ));
            }
            i = i + 1;
        }
        assert(start.updates.take(i as int) =~= start.updates);
        self.updates.clear();
        assert(update_views(self.updates@) =~= Seq::empty());
        out.append(hide_cursor().as_str());
        out
    }
}


impl UI {
    /// Instructs the user interface to update the terminal, which is `w`
    /// columns wide and `h` rows high, at the time `now`, in milliseconds of
    /// a clock that does not go back. Returns what is to be written.
    ///
    /// The first update draws the dashboard in full. A change of size starts
    /// a timer; the dashboard is drawn anew once the size has stayed the same
    /// for the settle window. Else the waiting updates are painted.
    pub fn update(&mut self, w: u16, h: u16, now: u64, results: &Results) -> (r: String)
        requires
            old(self)@.wf(),
            old(self)@.covered_by(results@.len()),
        ensures
            final(self)@.wf(),
            final(self)@.covered_by(results@.len()),
            final(self)@ == old(self)@.updated(w, h, now),
            r@ == old(self)@.update_text(results@, w, h, now),
    {
        let (drawn_w, drawn_h) = self.drawn;
        if drawn_w == 0 && drawn_h == 0 {
            self.draw(w, h, results)
        } else if let Some((new_w, new_h, t)) = self.debounce {
            if w == new_w && h == new_h {
                if now >= t && now - t >= crate::cmd::pull::DEBOUNCE_MILLIS {
                    self.debounce = None;
                    self.draw(w, h, results)
                } else {
                    String::new()
                }
            } else {
                self.debounce = Some((w, h, now));
                String::new()
            }
        } else if w != drawn_w || h != drawn_h {
            self.debounce = Some((w, h, now));
            String::new()
        } else {
            self.process_updates(results)
        }
    }

    /// Tells the user interface that the program is terminating. Returns what
    /// is to be written: the first time, the dashboard drawn anew with the
    /// banner.
    pub fn cancel(&mut self, w: u16, h: u16, results: &Results) -> (r: String)
        requires
            old(self)@.wf(),
            old(self)@.covered_by(results@.len()),
        ensures
            final(self)@.wf(),
            final(self)@.covered_by(results@.len()),
            final(self)@ == old(self)@.cancel(w, h),
            r@ == old(self)@.cancel_text(results@, w, h),
    {
        if !self.canceled {
            self.canceled = true;
            let mut out = self.draw(w, h, results);
            let ghost flushed = self@;
            out.append(self.process_updates(results).as_str());
            assert(self@ == flushed);
            out
        } else {
            String::new()
        }
    }

    /// Cleans up the UI: returns what clears the screen and shows the cursor
    /// again.
    pub fn cleanup(&mut self) -> (r: String)
        ensures
            final(self)@ == old(self)@,
            r@ == cleanup_text(),
    {
        let mut out = clear_all();
        out.append(show_cursor().as_str());
        out.append("\n");
        out
    }

    /// Draws the UI, with a width of `w` and height `h`, based on results
    /// `results`, and returns what is to be written.
    pub fn draw(&mut self, w: u16, h: u16, results: &Results) -> (r: String)
        requires
            old(self)@.covered_by(results@.len()),
        ensures
            final(self)@.wf(),
            final(self)@.covered_by(results@.len()),
            final(self)@ == old(self)@.redrawn(w, h),
            r@ == old(self)@.draw_text(results@, w, h),
    {
        let ghost start = self@;
        let ghost sorted = arranged_rows(start.rows);
        self.locations.clear();
        let mut out = clear_all();
        let keys = row_sort_keys(&self.rows);
        let order = stable_order(&keys);
        proof {
            lemma_ordering(row_keys(start.rows), order@);
        }
        let column_w = column_width(&self.rows);
        let n = self.rows.len();
        let drawable: usize = if n > 65535 {
            65535
        } else {
            n
        };
        let over = if self.canceled {
            h as usize <= n
        } else {
            (h as usize) < n
        };
        let cut = over && h >= 1 && h as usize <= drawable;
        assert(cut == is_cut(n as nat, self.canceled, h));
        let full: usize = if cut {
            (h - 1) as usize
        } else {
            drawable
        };
        let mut i: usize = 0;
        assert(location_views(self.locations@) =~= rows_locations(sorted, column_w as nat, w, 0));
        while i < full
            invariant
                i <= full <= drawable <= n,
                drawable <= 65535,
                n == self.rows@.len(),
                order@.len() == n,
                start.covered_by(results@.len()),
                sorted == arranged_rows(start.rows),
                ordering(row_keys(start.rows)) == order@,
                is_stable_order(row_keys(start.rows), order@),
                column_w == widest(start.rows),
                self@ == (Screen { locations: self@.locations, ..start }),
                self@.locations == rows_locations(sorted, column_w as nat, w, i as nat),
                out@ == "\x1B[2J"@ + rows_text(sorted, results@, column_w as nat, w, i as nat),
                forall|k: int| 0 <= k < self.locations@.len() ==> (#[trigger] self.locations@[k]).y >= 1,
            decreases full - i,
        {
            assert(order@[i as int] < n);
            let at = order[i];
            let row = &self.rows[at];
            assert(row@ == start.rows[at as int]);
            assert(sorted[i as int] == arranged_row(row@));
            proof {
                lemma_widest(start.rows, at as int);
            }
            let kind = match results.get(row.repo) {
                Some(summary) => summary.kind(),
                None => Kind::Neutral,
            };
            let y = (i + 1) as u16;
            let ghost before = out@;
            let ghost piece = row_text(sorted[i as int], kind, column_w as nat, w, y);
            draw_row(&mut self.locations, &mut out, row, kind, column_w, w, y);
            assert(out@ =~= "\x1B[2J"@ + (rows_text(sorted, results@, column_w as nat, w, i as nat)
                + piece));
            i = i + 1;
        }
        let hidden: usize = if cut && !self.canceled {
            n - h as usize + 1
        } else {
            0
        };
        if cut && !self.canceled {
            let mut message = String::from_str("\u{2026}");
            message.append(decimal_string(hidden).as_str());
            message.append(" more not shown");
            let ghost before = out@;
            let place = goto(1, h);
            let shown = fit(message.as_str(), w);
            out.append(place.as_str());
            out.append(shown.as_str());
            assert(out@ =~= before + (goto_sequence(1, h) + shown@));
        }
        assert(out@ == "\x1B[2J"@ + rows_text(sorted, results@, column_w as nat, w, full as nat)
            + start.overflow_text(w, h));
        if self.canceled {
            let row: u16 = if full < 65535 {
                (full + 1) as u16
            } else {
                65535
            };
            let shown = fit(
                "pending fetches canceled; allowing in-flight fetches to finish (hit Ctrl-c again to terminate unsafely)",
                w,
            );
            let ghost before = out@;
            let place = goto(1, row);
            let text = paint(Colour::Red.bold(), shown.as_str());
            out.append(place.as_str());
            out.append(text.as_str());
            assert(out@ =~= before + (goto_sequence(1, row) + text@));
        }
        assert(out@ == start.frame_text(results@, w, h));
        self.drawn = (w, h);
        assert(self@ == start.framed(w, h));
        let flush = self.process_updates(results);
        out.append(flush.as_str());
        out
    }
}


// ----- determinism ----------------------------------------------------------
/// Two rows show the same repository under the same name with remotes of
/// the same names, whatever the states of the remotes.
pub open spec fn same_cells(a: RowView, b: RowView) -> bool {
    &&& a.repo == b.repo
    &&& a.name == b.name
    &&& a.path == b.path
    &&& a.remotes.len() == b.remotes.len()
    &&& forall|i: int| 0 <= i < a.remotes.len() ==> (#[trigger] a.remotes[i]).name == b.remotes[i].name
}

/// The rows `b` are the rows `a` in another order, each possibly with other
/// states: row `i` of `b` shows what row `perm[i]` of `a` shows, and row `j`
/// of `a` is shown by row `inv[j]` of `b`.
pub open spec fn same_rows(a: Seq<RowView>, b: Seq<RowView>, perm: Seq<int>, inv: Seq<int>) -> bool {
    &&& a.len() == b.len()
    &&& a.len() <= usize::MAX
    &&& forall|i: int| 0 <= i < a.len() ==> (#[trigger] a[i]).remotes.len() <= usize::MAX
    &&& perm.len() == a.len()
    &&& inv.len() == a.len()
    &&& forall|i: int|
        0 <= i < b.len() ==> 0 <= (#[trigger] perm[i]) < a.len() && same_cells(a[perm[i]], b[i])
            && inv[perm[i]] == i
    &&& forall|j: int| 0 <= j < a.len() ==> 0 <= (#[trigger] inv[j]) < b.len() && perm[inv[j]] == j
}

/// No two rows have the same name and the same path.
pub open spec fn distinct_rows(rows: Seq<RowView>) -> bool {
    forall|i: int, j: int|
        0 <= i < j < rows.len() ==> !(#[trigger] rows[i].name == #[trigger] rows[j].name && rows[i].path
            == rows[j].path)
}

/// The cells of the remotes are where the names of the remotes put them.
proof fn lemma_remote_cells_same(
    repo: nat,
    a: Seq<RemoteView>,
    b: Seq<RemoteView>,
    remaining: nat,
    w: u16,
    y: u16,
)
    requires
        a.len() == b.len(),
        forall|i: int| 0 <= i < a.len() ==> (#[trigger] a[i]).name == b[i].name,
    ensures
        remote_cells(repo, a, remaining, w, y) == remote_cells(repo, b, remaining, w, y),
    decreases a.len(),
{
    if a.len() > 0 && remote_fits(a[0].name, remaining) {
        assert(a[0].name == b[0].name);
        let shown = shown_remote(a[0].name, remaining);
        assert forall|i: int| 0 <= i < a.drop_first().len() implies (#[trigger] a.drop_first()[i]).name
            == b.drop_first()[i].name by {
            assert(a.drop_first()[i] == a[i + 1]);
            assert(b.drop_first()[i] == b[i + 1]);
        }
        lemma_remote_cells_same(
            repo,
            a.drop_first(),
            b.drop_first(),
            (remaining - width(shown) - 1) as nat,
            w,
            y,
        );
    }
}

/// Rows that show the same are arranged alike.
proof fn lemma_arranged_same(a: RowView, b: RowView)
    requires
        same_cells(a, b),
        a.remotes.len() <= usize::MAX,
    ensures
        same_cells(arranged_row(a), arranged_row(b)),
{
    assert(remote_keys(a.remotes) =~= remote_keys(b.remotes));
    let order = ordering(remote_keys(a.remotes));
    lemma_order_exists(remote_keys(a.remotes));
    assert forall|i: int| 0 <= i < a.remotes.len() implies (#[trigger] arranged(a.remotes)[i]).name
        == arranged(b.remotes)[i].name by {
        assert(order[i] < a.remotes.len());
    }
}

/// The rows of two dashboards that show the same repositories, no two under
/// the same name and path, are drawn in the same order.
proof fn lemma_arranged_rows_same(a: Seq<RowView>, b: Seq<RowView>, perm: Seq<int>, inv: Seq<int>)
    requires
        same_rows(a, b, perm, inv),
        distinct_rows(a),
    ensures
        forall|k: int|
            0 <= k < a.len() ==> same_cells(#[trigger] arranged_rows(a)[k], arranged_rows(b)[k]),
{
    let ka = row_keys(a);
    let kb = row_keys(b);
    lemma_order_exists(ka);
    lemma_order_exists(kb);
    let oa = ordering(ka);
    let ob = ordering(kb);
    let mapped = Seq::new(ob.len(), |k: int| perm[ob[k] as int] as usize);
    assert forall|x: int, y: int| 0 <= x < y < mapped.len() implies precedes(
        ka,
        #[trigger] mapped[x] as int,
        #[trigger] mapped[y] as int,
    ) by {
        let i = ob[x] as int;
        let j = ob[y] as int;
        assert(i < kb.len() && j < kb.len());
        assert(precedes(kb, i, j));
        assert(0 <= perm[i] < a.len() && same_cells(a[perm[i]], b[i]));
        assert(0 <= perm[j] < a.len() && same_cells(a[perm[j]], b[j]));
        assert(mapped[x] == perm[i] as usize && mapped[y] == perm[j] as usize);
        assert(kb[i] == ka[perm[i]]);
        assert(kb[j] == ka[perm[j]]);
        if !key_less(kb[i], kb[j]) {
            assert(kb[i] == kb[j]);
            let p = perm[i];
            let q = perm[j];
            assert(p != q) by {
                if p == q {
                    assert(inv[p] == i && inv[q] == j);
                }
            }
            if p < q {
                assert(!(a[p].name == a[q].name && a[p].path == a[q].path));
            } else {
                assert(!(a[q].name == a[p].name && a[q].path == a[p].path));
            }
        }
    }
    assert forall|k: int| 0 <= k < mapped.len() implies (#[trigger] mapped[k]) < ka.len() by {
        assert(ob[k] < kb.len());
        assert(0 <= perm[ob[k] as int] < a.len());
    }
    assert forall|j: int| 0 <= j < ka.len() implies #[trigger] mapped.contains(j as usize) by {
        let i = inv[j];
        assert(0 <= i < b.len() && perm[i] == j);
        assert(ob.contains(i as usize));
        let k = choose|k: int| 0 <= k < ob.len() && ob[k] == i as usize;
        assert(mapped[k] == perm[ob[k] as int] as usize);
        assert(mapped[k] == j as usize);
    }
    assert(is_stable_order(ka, mapped));
    lemma_ordering(ka, mapped);
    assert forall|k: int| 0 <= k < a.len() implies same_cells(
        #[trigger] arranged_rows(a)[k],
        arranged_rows(b)[k],
    ) by {
        let i = ob[k] as int;
        assert(i < kb.len());
        assert(0 <= perm[i] < a.len() && same_cells(a[perm[i]], b[i]));
        assert(mapped[k] == perm[i] as usize);
        assert(oa[k] == perm[i]);
        lemma_arranged_same(a[perm[i]], b[i]);
    }
}

/// The widest name of rows that show the same repositories is the same.
proof fn lemma_widest_same(a: Seq<RowView>, b: Seq<RowView>, perm: Seq<int>, inv: Seq<int>)
    requires
        same_rows(a, b, perm, inv),
    ensures
        widest(a) == widest(b),
{
    lemma_widest_attained(a);
    lemma_widest_attained(b);
    if a.len() > 0 {
        let i = choose|i: int| 0 <= i < a.len() && width(a[i].name) == widest(a);
        assert(same_cells(a[perm[inv[i]]], b[inv[i]]));
        lemma_widest(b, inv[i]);
        let j = choose|j: int| 0 <= j < b.len() && width(b[j].name) == widest(b);
        assert(same_cells(a[perm[j]], b[j]));
        lemma_widest(a, perm[j]);
    }
}

/// The widest name is the name of some row.
proof fn lemma_widest_attained(rows: Seq<RowView>)
    ensures
        rows.len() > 0 ==> exists|i: int| 0 <= i < rows.len() && width(rows[i].name) == widest(rows),
        rows.len() == 0 ==> widest(rows) == 0,
    decreases rows.len(),
{
    if rows.len() > 0 {
        let head = rows.drop_last();
        lemma_widest_attained(head);
        if width(rows.last().name) > widest(head) || head.len() == 0 {
            assert(width(rows[rows.len() - 1].name) == widest(rows));
        } else {
            let i = choose|i: int| 0 <= i < head.len() && width(head[i].name) == widest(head);
            assert(rows[i] == head[i]);
        }
    }
}

/// The cells of rows that show the same are in the same places.
proof fn lemma_rows_locations_same(a: Seq<RowView>, b: Seq<RowView>, column_w: nat, w: u16, upto: nat)
    requires
        a.len() == b.len(),
        upto <= a.len(),
        forall|k: int| 0 <= k < a.len() ==> same_cells(#[trigger] a[k], b[k]),
    ensures
        rows_locations(a, column_w, w, upto) == rows_locations(b, column_w, w, upto),
    decreases upto,
{
    if upto > 0 {
        lemma_rows_locations_same(a, b, column_w, w, (upto - 1) as nat);
        let x = a[upto - 1];
        let y = b[upto - 1];
        assert(same_cells(x, y));
        let room = room_for(column_w, width(x.name), w);
        if name_fits(x.name, room) {
            let shown = shown_name(x.name, room);
            lemma_remote_cells_same(
                x.repo,
                x.remotes,
                y.remotes,
                (room - width(shown)) as nat,
                w,
                upto as u16,
            );
        }
    }
}

/// Full-draw determinism: two dashboards that show the same repositories
/// with the same remotes, no two repositories under the same name and path,
/// paint every cell at the same place on terminals of the same size, in
/// whatever order the repositories were added and whatever the states of
/// the remotes are.
pub proof fn lemma_draw_is_determined(
    a: Screen,
    b: Screen,
    perm: Seq<int>,
    inv: Seq<int>,
    w: u16,
    h: u16,
)
    requires
        same_rows(a.rows, b.rows, perm, inv),
        distinct_rows(a.rows),
        a.canceled == b.canceled,
    ensures
        a.frame_locations(w, h) == b.frame_locations(w, h),
        a.redrawn(w, h).locations == b.redrawn(w, h).locations,
{
    lemma_arranged_rows_same(a.rows, b.rows, perm, inv);
    lemma_widest_same(a.rows, b.rows, perm, inv);
    lemma_rows_locations_same(
        arranged_rows(a.rows),
        arranged_rows(b.rows),
        widest(a.rows),
        w,
        full_rows(a.rows.len(), a.canceled, h),
    );
}

} // verus!
