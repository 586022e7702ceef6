//! Filesystem path utilities.
use vstd::prelude::*;
use vstd::std_specs::cmp::PartialEqSpecImpl;
use vstd::string::*;

verus! {

/// Error type returned from functions in this module.
#[derive(Debug)]
pub struct Error {
    /// Message describing the error.
    message: String,
}

impl View for Error {
    type V = Seq<char>;

    closed spec fn view(&self) -> Seq<char> {
        self.message@
    }
}

impl PartialEq for Error {
    /// Two errors are equal where their messages are.
    fn eq(&self, other: &Error) -> (r: bool) {
        self.message.eq(&other.message)
    }
}

impl PartialEqSpecImpl for Error {
    open spec fn obeys_eq_spec() -> bool {
        true
    }

    open spec fn eq_spec(&self, other: &Error) -> bool {
        self@ == other@
    }
}

impl Error {
    /// Creates and returns a new error struct with the specified
    /// `message`.
    pub fn new(message: &str) -> (r: Error)
        ensures
            r@ == message@,
    {
        Error { message: message.to_owned() }
    }

    /// Returns the message, which is how the error is displayed.
    pub fn to_string(&self) -> (r: String)
        ensures
            r@ == self@,
    {
        self.message.clone()
    }
}


// ----- tilde ----------------------------------------------------------------
/// How a path begins.
pub enum Tilde {
    /// With a bare tilde: the home directory of the current user, and what
    /// follows the separator behind the tilde, if anything does.
    Current {
        /// What follows `~/`.
        rest: Option<String>,
    },
    /// With a tilde and a user name: the home directory of that user, and
    /// what follows the separator behind the name, if there is one.
    Named {
        /// The name of the user.
        user: String,
        /// What follows the separator behind the name.
        rest: Option<String>,
    },
    /// Without a tilde.
    Plain,
}

/// Mathematical value of a `Tilde`.
pub ghost enum TildeView {
    Current { rest: Option<Seq<char>> },
    Named { user: Seq<char>, rest: Option<Seq<char>> },
    Plain,
}

impl View for Tilde {
    type V = TildeView;

    open spec fn view(&self) -> TildeView {
        match self {
            Tilde::Current { rest } => TildeView::Current { rest: crate::app::option_view(*rest) },
            Tilde::Named { user, rest } => TildeView::Named {
                user: user@,
                rest: crate::app::option_view(*rest),
            },
            Tilde::Plain => TildeView::Plain,
        }
    }
}

/// The position of the first separator of `path` at or behind `from`, or the
/// length of the path where there is none.
pub open spec fn segment_end(path: Seq<char>, from: int) -> int
    decreases path.len() - from,
{
    if from >= path.len() {
        path.len() as int
    } else if path[from] == '/' {
        from
    } else {
        segment_end(path, from + 1)
    }
}

/// How `path` begins. Behind a tilde, a user name reaches up to the first
/// separator; what follows that separator is the rest.
pub open spec fn tilde_of(path: Seq<char>) -> TildeView {
    if path.len() == 0 || path[0] != '~' {
        TildeView::Plain
    } else if path.len() == 1 || path[1] == '/' {
        TildeView::Current {
            rest: if path.len() > 2 {
                Some(path.subrange(2, path.len() as int))
            } else {
                None
            },
        }
    } else {
        let end = segment_end(path, 1);
        TildeView::Named {
            user: path.subrange(1, end),
            rest: if end < path.len() {
                Some(path.subrange(end + 1, path.len() as int))
            } else {
                None
            },
        }
    }
}

/// Returns how `path` begins.
pub fn tilde(path: &str) -> (r: Tilde)
    ensures
        r@ == tilde_of(path@),
{
    let n = path.unicode_len();
    if n == 0 || path.get_char(0) != '~' {
        return Tilde::Plain;
    }
    if n == 1 || path.get_char(1) == '/' {
        let rest = if n > 2 {
            Some(path.substring_char(2, n).to_owned())
        } else {
            None
        };
        return Tilde::Current { rest: rest };
    }
    let mut end: usize = 1;
    while end < n && path.get_char(end) != '/'
        invariant
            1 <= end <= n,
            n == path@.len(),
            segment_end(path@, end as int) == segment_end(path@, 1),
        decreases n - end,
    {
        end = end + 1;
    }
    let user = path.substring_char(1, end).to_owned();
    let rest = if end < n {
        Some(path.substring_char(end + 1, n).to_owned())
    } else {
        None
    };
    Tilde::Named { user: user, rest: rest }
}

// ----- expand ---------------------------------------------------------------
/// What `std::path::PathBuf::push` makes of the path `base` when `rest` is
/// pushed onto it, as text.
pub uninterp spec fn pushed(base: Seq<char>, rest: Seq<char>) -> Seq<char>;

/// `std::path::PathBuf::push`: `rest` pushed onto `base`. The contract gives
/// the result its name.
#[verifier::external_body]
pub(crate) fn push(base: &str, rest: &str) -> (r: String)
    ensures
        r@ == pushed(base@, rest@),
{
    let mut buf = std::path::PathBuf::from(base);
    buf.push(rest);
    buf.to_string_lossy().into_owned()
}

/// `users::get_current_uid`: the uid of the user who runs the process.
/// Nothing is claimed of the result.
#[verifier::external_body]
fn current_uid() -> (r: u32) {
    users::get_current_uid()
}

/// `users::get_user_by_uid`: the home directory of the user with the uid
/// `uid`, if there is such a user. Nothing is claimed of the result.
#[verifier::external_body]
fn uid_home(uid: u32) -> (r: Option<String>) {
    match users::get_user_by_uid(uid) {
        Some(user) => Some(users::os::unix::UserExt::home_dir(&user).to_string_lossy().into_owned()),
        None => None,
    }
}

/// Looks the current user up: the home directory, or the uid where the user
/// is unknown.
fn current_home() -> (r: Result<String, u32>) {
    let uid = current_uid();
    found_or_uid(uid, uid_home(uid))
}

/// What the lookup of the user with the uid `uid` comes to, given the home
/// directory that was found for it, if one was: that home directory, or the
/// uid.
fn found_or_uid(uid: u32, home: Option<String>) -> (r: Result<String, u32>)
    ensures
        r == (match home {
            Some(home) => Ok::<String, u32>(home),
            None => Err::<String, u32>(uid),
        }),
{
    match home {
        Some(home) => Ok(home),
        None => Err(uid),
    }
}

/// `users::get_user_by_name`: the home directory of the user named `name`,
/// if there is such a user. Nothing is claimed of the result.
#[verifier::external_body]
fn user_home(name: &str) -> (r: Option<String>) {
    match users::get_user_by_name(name) {
        Some(user) => Some(users::os::unix::UserExt::home_dir(&user).to_string_lossy().into_owned()),
        None => None,
    }
}

/// The home directory `home` with `rest` beneath it, where there is a rest.
pub open spec fn beneath(home: Seq<char>, rest: Option<Seq<char>>) -> Seq<char> {
    match rest {
        Some(rest) => pushed(home, rest),
        None => home,
    }
}

/// The message for a current user whose uid is unknown.
pub open spec fn uid_failure(uid: u32) -> Seq<char> {
    "failed to look up user info for uid "@ + crate::text::decimal(uid as nat)
}

/// The message for a user name that is unknown.
pub open spec fn name_failure(user: Seq<char>) -> Seq<char> {
    "failed to look up user info for username "@ + user
}

/// Returns `home` with `rest` beneath it, where there is a rest.
pub fn place_beneath(home: &str, rest: &Option<String>) -> (r: String)
    ensures
        r@ == beneath(home@, crate::app::option_view(*rest)),
{
    match rest {
        Some(rest) => push(home, rest.as_str()),
        None => home.to_owned(),
    }
}

/// Finishes the expansion of a path that begins with a bare tilde, given
/// what the lookup of the current user came to.
pub fn expand_current(home: Result<String, u32>, rest: &Option<String>) -> (r: Result<String, Error>)
    ensures
        match home {
            Ok(home) => r is Ok && r->Ok_0@ == beneath(home@, crate::app::option_view(*rest)),
            Err(uid) => r is Err && r->Err_0@ == uid_failure(uid),
        },
{
    match home {
        Ok(home) => Ok(place_beneath(home.as_str(), rest)),
        Err(uid) => {
            let mut m = String::from_str("failed to look up user info for uid ");
            m.append(crate::text::decimal_string(uid as usize).as_str());
            Err(Error::new(m.as_str()))
        },
    }
}

/// Finishes the expansion of a path that begins with a tilde and the name
/// `user`, given what the lookup of that user came to.
pub fn expand_named(user: &str, home: Option<String>, rest: &Option<String>) -> (r: Result<
    String,
    Error,
>)
    ensures
        match home {
            Some(home) => r is Ok && r->Ok_0@ == beneath(home@, crate::app::option_view(*rest)),
            None => r is Err && r->Err_0@ == name_failure(user@),
        },
{
    match home {
        Some(home) => Ok(place_beneath(home.as_str(), rest)),
        None => {
            let mut m = String::from_str("failed to look up user info for username ");
            m.append(user);
            Err(Error::new(m.as_str()))
        },
    }
}

/// Returns `path`, with leading tildes expanded out to the appropriate
/// user home directory.
///
/// # Errors
///
/// `expand` returns an error if:
///
/// * `path` is `~` or starts with `~/` and the user info for the uid
///   running the process cannot be fetched.
/// * `path` starts with `~example` and the user info for the user
///   named `example` cannot be fetched.
pub fn expand(path: &str) -> (r: Result<String, Error>)
    ensures
        match tilde_of(path@) {
            TildeView::Plain => r is Ok && r->Ok_0@ == path@,
            TildeView::Current { rest } => match r {
                Ok(expanded) => exists|home: Seq<char>| expanded@ == beneath(home, rest),
                Err(error) => exists|uid: u32| error@ == uid_failure(uid),
            },
            TildeView::Named { user, rest } => match r {
                Ok(expanded) => exists|home: Seq<char>| expanded@ == beneath(home, rest),
                Err(error) => error@ == name_failure(user),
            },
        },
{
    match tilde(path) {
        Tilde::Plain => Ok(path.to_owned()),
        Tilde::Current { rest } => {
            let home = current_home();
            let ghost looked = home;
            let r = expand_current(home, &rest);
            proof {
                match looked {
                    Ok(found) => {
                        assert(r->Ok_0@ == beneath(found@, crate::app::option_view(rest)));
                    },
                    Err(uid) => {
                        assert(r->Err_0@ == uid_failure(uid));
                    },
                }
            }
            r
        },
        Tilde::Named { user, rest } => {
            let home = user_home(user.as_str());
            let ghost looked = home;
            let r = expand_named(user.as_str(), home, &rest);
            proof {
                match looked {
                    Some(found) => {
                        assert(r->Ok_0@ == beneath(found@, crate::app::option_view(rest)));
                    },
                    None => {},
                }
            }
            r
        },
    }
}

} // verus!
