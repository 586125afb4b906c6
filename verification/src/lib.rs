//! A bare-bones parser for command lines.
//!
//! A [`Command`] describes a program: its arguments, each with a name and a
//! typed value, and its subcommands. Parsing a token list first walks down
//! the subcommand tree, then matches the remaining tokens against the
//! arguments of the command that was reached.
//!
//! ```
//! use tiny_args::{ArgName, ArgValue, Command};
//!
//! let parsed = Command::create("myapp", "This is my cool app!")
//!     .version("0.1.0")
//!     .arg(ArgName::both('h', "help"), ArgValue::Flag, "Shows this help.")
//!     .arg(ArgName::long("path"), ArgValue::Path(Some("/default/path".into())), "A path.")
//!     .subcommand(
//!         Command::create("subcmd", "This is a subcommand.")
//!             .arg(ArgName::both('n', "num"), ArgValue::Num(Some(42)), "Insert a number."),
//!     )
//!     .parse_from(vec!["myapp".into(), "subcmd".into(), "-n".into(), "7".into()])
//!     .unwrap();
//!
//! assert_eq!(parsed.name, "subcmd");
//! assert_eq!(parsed.args.get(ArgName::long("num")).num(), Some(7));
//! assert_eq!(parsed.args.count(ArgName::short('n')), 1);
//! ```
//!
//! Every function of the library is verified: its contract says what it
//! returns, over the views of the values involved, and the functions never
//! panic on arguments that meet their `requires`. The functions that build
//! a command ([`Command::arg`], [`Command::subcommand`]) and those that
//! look an argument up ([`ArgList::get`], [`ArgList::count`]) ask for a
//! name that is new, or known; [`Command::try_arg`],
//! [`Command::try_subcommand`] and [`ArgList::try_get`] ask for nothing and
//! tell.

pub mod arg;
pub mod command;
pub mod error;
pub mod help;
pub mod name;
pub mod number;
pub mod parser;
pub mod style;
pub mod text;
pub mod value;

pub use arg::{Arg, ArgList, ArgView};
pub use command::{Command, CommandView};
pub use error::{BuildError, BuildErrorView, ErrorView, ParseError};
pub use name::{ArgName, NameView};
pub use number::FloatText;
pub use value::{ArgValue, ValueView};

pub use parser::{ParsedCommand, ParsedView};
pub use text::{path_text, smol_text};
