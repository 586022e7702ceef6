//! Code for handling invocations of the program.
use vstd::prelude::*;
use vstd::string::*;
use ansi_term::{Colour, Style};
use crate::app::{GivenView, Matches};
use crate::config::{Config, RepoView};
use crate::term::{paint, painted, plain};

verus! {

// ----- WarningAction --------------------------------------------------------
/// Indicates the action to take upon encountering a warning.
#[derive(Clone, Copy, Debug, PartialEq, Eq, Structural)]
pub enum WarningAction {
    /// Do nothing, stay silent.
    Ignore,
    /// Display the warning to the end user.
    Print,
    /// Display the warning, exit the program.
    Exit,
}

// ----- Control --------------------------------------------------------------
/// Warnings, errors, and program control API.
pub struct Control {
    /// Action to take when encountering a warning.
    warning: WarningAction,
}

impl View for Control {
    type V = WarningAction;

    closed spec fn view(&self) -> WarningAction {
        self.warning
    }
}

impl Control {
    /// Creates and returns a new control instance, which will do
    /// `warning` action on warnings.
    pub fn new(warning: WarningAction) -> (r: Self)
        ensures
            r@ == warning,
    {
        Self { warning: warning }
    }
}


/// The bold style of a colour.
pub open spec fn bold_in(colour: Colour) -> Style {
    Style { foreground: Some(colour), is_bold: true, ..plain() }
}

/// What is printed for the warning `message`.
pub open spec fn warning_text(message: Seq<char>) -> Seq<char> {
    painted(bold_in(Colour::Yellow), "warning"@) + " "@ + message + "\n"@
}

/// What is printed for the error `message`.
pub open spec fn error_text(message: Seq<char>) -> Seq<char> {
    "  "@ + painted(bold_in(Colour::Red), "error"@) + " "@ + message + "\n"@
}

/// What a warning comes to: the text for the standard error stream, and
/// whether the program is to exit with status 1.
pub struct Warned {
    /// The text to print.
    pub text: String,
    /// Whether the program exits.
    pub exit: bool,
}

impl Control {
    /// Registers a warning and returns what it comes to.
    ///
    /// What actually happens depends on the warning action for the
    /// particular invocation of the program: nothing, the warning is
    /// printed, or it is printed and the program exits.
    pub fn warning(&self, message: &str) -> (r: Warned)
        ensures
            r.text@ == (if self@ == WarningAction::Ignore {
                Seq::<char>::empty()
            } else {
                warning_text(message@)
            }),
            r.exit == (self@ == WarningAction::Exit),
    {
        match self.warning {
            WarningAction::Ignore => Warned { text: String::new(), exit: false },
            WarningAction::Print => Warned { text: Self::warning_line(message), exit: false },
            WarningAction::Exit => Warned { text: Self::warning_line(message), exit: true },
        }
    }

    /// Returns the line that is printed for the warning `message`.
    fn warning_line(message: &str) -> (r: String)
        ensures
            r@ == warning_text(message@),
    {
        let mut text = paint(Colour::Yellow.bold(), "warning");
        text.append(" ");
        text.append(message);
        text.append("\n");
        text
    }

    /// Returns what is printed for the error `message`, after which the
    /// program exits with status 1.
    pub fn error(&self, message: &str) -> (r: String)
        ensures
            r@ == error_text(message@),
    {
        let label = paint(Colour::Red.bold(), "error");
        let mut text = String::from_str("  ");
        text.append(label.as_str());
        text.append(" ");
        text.append(message);
        text.append("\n");
        text
    }
}

// ----- Invocation -----------------------------------------------------------
/// All the state for a given invocation of the program.
pub struct Invocation<'a> {
    /// Parsed configuration.
    config: &'a Config,
    /// `Control` instance.
    control: &'a Control,
    /// Argument matches for the called subcommand.
    matches: &'a Matches,
}

impl<'a> Invocation<'a> {
    /// The repositories of the configuration.
    pub closed spec fn repos(&self) -> Seq<RepoView> {
        self.config@
    }

    /// The action to take on warnings.
    pub closed spec fn action(&self) -> WarningAction {
        self.control@
    }

    /// The arguments of the subcommand.
    pub closed spec fn given(&self) -> Seq<GivenView> {
        self.matches@
    }

    /// Creates and returns a new invocation instance.
    pub fn new(config: &'a Config, matches: &'a Matches, control: &'a Control) -> (r: Self)
        ensures
            r.repos() == config@,
            r.action() == control@,
            r.given() == matches@,
    {
        Self { config: config, control: control, matches: matches }
    }

    /// Returns the config struct for this invocation.
    pub fn config(&self) -> (r: &Config)
        ensures
            r@ == self.repos(),
    {
        self.config
    }

    /// Returns the control struct for this invocation.
    pub fn control(&self) -> (r: &Control)
        ensures
            r@ == self.action(),
    {
        self.control
    }

    /// Returns the matches struct for this invocation.
    pub fn matches(&self) -> (r: &Matches)
        ensures
            r@ == self.given(),
    {
        self.matches
    }
}

} // verus!
