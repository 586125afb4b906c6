//! What can go wrong while a command is put together and while a command
//! line is parsed.

use crate::name::{ArgName, NameView};
use crate::text::push_char;
use vstd::prelude::*;
use vstd::string::*;

verus! {

/// The reason a command line was rejected.
///
/// Parsing stops at the first token that cannot be accepted; nothing of
/// what was read before it is handed out.
#[derive(Debug, PartialEq, Eq)]
pub enum ParseError {
    /// A token that should name a subcommand names none of the current command.
    UnknownSubcommand { token: String },
    /// An argument was entered that the command does not declare.
    UnknownArgument { argument: ArgName },
    /// Two dashes with nothing after them.
    MalformedLongArgument { token: String },
    /// A dash with nothing after it.
    MalformedShortArgument { token: String },
    /// A token that starts with no dash stands where an argument is expected.
    NotAnArgument { token: String },
    /// The value entered for a numeric argument is not a number of its kind.
    InvalidNumericValue { argument: ArgName, raw_text: String },
    /// The command line ends after an argument that must be followed by a value.
    MissingValue { argument: ArgName },
}

/// What a [`ParseError`] stands for, over plain characters.
pub enum ErrorView {
    UnknownSubcommand { token: Seq<char> },
    UnknownArgument { argument: NameView },
    MalformedLongArgument { token: Seq<char> },
    MalformedShortArgument { token: Seq<char> },
    NotAnArgument { token: Seq<char> },
    InvalidNumericValue { argument: NameView, raw_text: Seq<char> },
    MissingValue { argument: NameView },
}

impl ErrorView {
    /// What the message is about: the offending token, or the argument as
    /// it is written on the command line.
    pub open spec fn subject(self) -> Seq<char> {
        match self {
            ErrorView::UnknownSubcommand { token } => token,
            ErrorView::UnknownArgument { argument } => argument.text(),
            ErrorView::MalformedLongArgument { token } => token,
            ErrorView::MalformedShortArgument { token } => token,
            ErrorView::NotAnArgument { token } => token,
            ErrorView::InvalidNumericValue { argument, .. } => argument.text(),
            ErrorView::MissingValue { argument } => argument.text(),
        }
    }

    /// What the message says of its subject.
    pub open spec fn complaint(self) -> Seq<char> {
        match self {
            ErrorView::UnknownSubcommand { .. } => "' is not a valid subcommand."@,
            ErrorView::UnknownArgument { .. } => "' is not a valid argument."@,
            ErrorView::MalformedLongArgument { .. } => "' is not a valid long argument."@,
            ErrorView::MalformedShortArgument { .. } => "' is not a valid short argument."@,
            ErrorView::NotAnArgument { .. } => "' is not an argument nor a value."@,
            ErrorView::InvalidNumericValue { raw_text, .. } => "' value's must be a valid number, not '"@
                + raw_text + "'."@,
            ErrorView::MissingValue { .. } => "' must be followed by a value."@,
        }
    }

    /// The message shown to the user: the subject between quotes, then the complaint.
    pub open spec fn message(self) -> Seq<char> {
        seq!['\''] + self.subject() + self.complaint()
    }
}

impl View for ParseError {
    type V = ErrorView;

    open spec fn view(&self) -> ErrorView {
        match *self {
            ParseError::UnknownSubcommand { token } => ErrorView::UnknownSubcommand { token: token@ },
            ParseError::UnknownArgument { argument } => ErrorView::UnknownArgument {
                argument: argument@,
            },
            ParseError::MalformedLongArgument { token } => ErrorView::MalformedLongArgument {
                token: token@,
            },
            ParseError::MalformedShortArgument { token } => ErrorView::MalformedShortArgument {
                token: token@,
            },
            ParseError::NotAnArgument { token } => ErrorView::NotAnArgument { token: token@ },
            ParseError::InvalidNumericValue { argument, raw_text } => ErrorView::InvalidNumericValue {
                argument: argument@,
                raw_text: raw_text@,
            },
            ParseError::MissingValue { argument } => ErrorView::MissingValue { argument: argument@ },
        }
    }
}

impl ParseError {
    /// A message that can be shown to the user.
    pub fn message(&self) -> (r: String)
        ensures
            r@ == self@.message(),
    {
        let mut out = String::new();
        push_char(&mut out, '\'');
        match self {
            ParseError::UnknownSubcommand { token } => {
                out.append(token.as_str());
                out.append("' is not a valid subcommand.");
            },
            ParseError::UnknownArgument { argument } => {
                out.append(argument.to_string().as_str());
                out.append("' is not a valid argument.");
            },
            ParseError::MalformedLongArgument { token } => {
                out.append(token.as_str());
                out.append("' is not a valid long argument.");
            },
            ParseError::MalformedShortArgument { token } => {
                out.append(token.as_str());
                out.append("' is not a valid short argument.");
            },
            ParseError::NotAnArgument { token } => {
                out.append(token.as_str());
                out.append("' is not an argument nor a value.");
            },
            ParseError::InvalidNumericValue { argument, raw_text } => {
                out.append(argument.to_string().as_str());
                out.append("' value's must be a valid number, not '");
                out.append(raw_text.as_str());
                out.append("'.");
            },
            ParseError::MissingValue { argument } => {
                out.append(argument.to_string().as_str());
                out.append("' must be followed by a value.");
            },
        }
        out
    }
}

/// The reason a command could not be extended.
#[derive(Debug, PartialEq, Eq)]
pub enum BuildError {
    /// The command already declares an argument with an equal name.
    DuplicateArgument { argument: ArgName },
    /// The command already has a subcommand of that name.
    DuplicateSubcommand { name: &'static str },
}

/// What a [`BuildError`] stands for, over plain characters.
pub enum BuildErrorView {
    DuplicateArgument { argument: NameView },
    DuplicateSubcommand { name: Seq<char> },
}

impl BuildErrorView {
    /// The message shown to the developer.
    pub open spec fn message(self) -> Seq<char> {
        match self {
            BuildErrorView::DuplicateArgument { argument } => "The argument '"@ + argument.text()
                + "' already exists in this command"@,
            BuildErrorView::DuplicateSubcommand { name } => "Subcommand '"@ + name
                + "' already exists."@,
        }
    }
}

impl View for BuildError {
    type V = BuildErrorView;

    open spec fn view(&self) -> BuildErrorView {
        match *self {
            BuildError::DuplicateArgument { argument } => BuildErrorView::DuplicateArgument {
                argument: argument@,
            },
            BuildError::DuplicateSubcommand { name } => BuildErrorView::DuplicateSubcommand {
                name: name@,
            },
        }
    }
}

impl BuildError {
    /// A message that can be shown to the developer.
    pub fn message(&self) -> (r: String)
        ensures
            r@ == self@.message(),
    {
        let mut out = String::new();
        match self {
            BuildError::DuplicateArgument { argument } => {
                out.append("The argument '");
                out.append(argument.to_string().as_str());
                out.append("' already exists in this command");
            },
            BuildError::DuplicateSubcommand { name } => {
                out.append("Subcommand '");
                out.append(name);
                out.append("' already exists.");
            },
        }
        out
    }
}

} // verus!
