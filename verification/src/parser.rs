//! Parsing: from the tokens of a command line to the command they address
//! and the values of its arguments.
//!
//! Parsing has two stages. The tokens at the front that name subcommands
//! lead from the root command down to the command that is meant
//! ([`traverse`]). The tokens after them are matched, one pass from left to
//! right, against the arguments of that command ([`args`]).

use crate::arg::{
    enter, expects_value, lemma_lookup_by_names, lemma_none_entered_total, lookup, none_entered,
    total_count, ArgList, ArgView,
};
use crate::command::{
    command_views, find_command, first_named_from, lemma_command_views, name_views, Command,
    CommandView,
};
use crate::error::{ErrorView, ParseError};
use crate::help::help_text;
use crate::name::{ArgName, NameView};
use crate::text::str_eq;
use vstd::prelude::*;
use vstd::string::*;

verus! {

/// What each of `tokens` holds, in the same order.
pub open spec fn token_views(tokens: Seq<String>) -> Seq<Seq<char>> {
    tokens.map_values(|t: String| t@)
}

/// `token` starts with a dash, as every argument does.
pub open spec fn starts_with_dash(token: Seq<char>) -> bool {
    token.len() > 0 && token[0] == '-'
}

/// The argument that `token` names, where an argument is expected.
///
/// Two dashes introduce a long name, which is all that follows them. One
/// dash introduces a short name, which is the one character after it; what
/// follows that character is not looked at. A dash or two dashes with
/// nothing behind are malformed, and a token without a dash is no argument.
pub open spec fn token_name(token: Seq<char>) -> Result<NameView, ErrorView> {
    if token.len() >= 2 && token[0] == '-' && token[1] == '-' {
        if token.len() == 2 {
            Err(ErrorView::MalformedLongArgument { token })
        } else {
            Ok(NameView::Long(token.skip(2)))
        }
    } else if starts_with_dash(token) {
        if token.len() == 1 {
            Err(ErrorView::MalformedShortArgument { token })
        } else {
            Ok(NameView::Short(token[1]))
        }
    } else {
        Err(ErrorView::NotAnArgument { token })
    }
}

/// What a command line makes of the arguments of a command.
///
/// The tokens are read from left to right. Each token that is read must
/// name an argument; that argument records one occurrence and, unless it is
/// a flag, takes the token that follows as its value. The first token that
/// cannot be accepted ends the parse with its error.
pub open spec fn match_tokens(args: Seq<ArgView>, tokens: Seq<Seq<char>>) -> Result<
    Seq<ArgView>,
    ErrorView,
>
    decreases tokens.len(),
{
    if tokens.len() == 0 {
        Ok(args)
    } else {
        match token_name(tokens[0]) {
            Err(e) => Err(e),
            Ok(name) => if expects_value(args, name) && tokens.len() >= 2 {
                match enter(args, name, Some(tokens[1])) {
                    Ok(after) => match_tokens(after, tokens.skip(2)),
                    Err(e) => Err(e),
                }
            } else {
                match enter(args, name, None) {
                    Ok(after) => match_tokens(after, tokens.skip(1)),
                    Err(e) => Err(e),
                }
            },
        }
    }
}

/// What the matching engine waits for.
pub enum Expecting {
    /// The next token must name an argument. This is the state in which
    /// the engine starts and in which it may stop.
    Argument,
    /// The next token is the value of the argument at the given place.
    Value(int),
}

/// One step of the matching engine: what reading `token` makes of the
/// arguments, and what the engine waits for next.
///
/// Where an argument is expected the token must name one; a flag records
/// the occurrence at once, any other argument makes the engine wait for its
/// value. Where a value is expected the token is read as a value of the
/// kind of the waiting argument, which then records the occurrence.
pub open spec fn step(args: Seq<ArgView>, state: Expecting, token: Seq<char>) -> Result<
    (Seq<ArgView>, Expecting),
    ErrorView,
> {
    match state {
        Expecting::Argument => match token_name(token) {
            Err(e) => Err(e),
            Ok(name) => match lookup(args, name) {
                None => Err(ErrorView::UnknownArgument { argument: name }),
                Some(i) => if args[i].value.takes_value() {
                    Ok((args, Expecting::Value(i)))
                } else {
                    match args[i].occurrence(None) {
                        Ok(after) => Ok((args.update(i, after), Expecting::Argument)),
                        Err(e) => Err(e),
                    }
                },
            },
        },
        Expecting::Value(i) => match args[i].occurrence(Some(token)) {
            Ok(after) => Ok((args.update(i, after), Expecting::Argument)),
            Err(e) => Err(e),
        },
    }
}

/// The matching engine run over `tokens` from the state `state`: one step
/// for each token, from left to right, until a step fails or no token is
/// left. If the engine then still waits for a value, that value is missing.
pub open spec fn run(args: Seq<ArgView>, state: Expecting, tokens: Seq<Seq<char>>) -> Result<
    Seq<ArgView>,
    ErrorView,
>
    decreases tokens.len(),
{
    if tokens.len() == 0 {
        match state {
            Expecting::Argument => Ok(args),
            Expecting::Value(i) => Err(ErrorView::MissingValue { argument: args[i].name }),
        }
    } else {
        match step(args, state, tokens[0]) {
            Ok((after, next)) => run(after, next, tokens.skip(1)),
            Err(e) => Err(e),
        }
    }
}

/// `match_tokens` is the matching engine run from its initial state: it
/// reads one token at a time and never looks further ahead than the value
/// of the argument it has just read.
pub proof fn lemma_match_tokens_is_run(args: Seq<ArgView>, tokens: Seq<Seq<char>>)
    ensures
        match_tokens(args, tokens) == run(args, Expecting::Argument, tokens),
    decreases tokens.len(),
{
    if tokens.len() > 0 {
        if let Ok(name) = token_name(tokens[0]) {
            crate::arg::lemma_lookup_first(args, name);
            if let Some(i) = lookup(args, name) {
                if args[i].value.takes_value() {
                    let later = tokens.skip(1);
                    if later.len() > 0 {
                        assert(later.skip(1) =~= tokens.skip(2));
                        if let Ok(after) = args[i].occurrence(Some(tokens[1])) {
                            lemma_match_tokens_is_run(args.update(i, after), tokens.skip(2));
                            assert(run(args, Expecting::Value(i), later) == run(
                                args.update(i, after),
                                Expecting::Argument,
                                tokens.skip(2),
                            ));
                        }
                    }
                } else {
                    if let Ok(after) = args[i].occurrence(None) {
                        lemma_match_tokens_is_run(args.update(i, after), tokens.skip(1));
                    }
                }
            }
        }
    }
}

/// `stack` holds the tokens of `tokens` in reverse, so that the first of
/// `tokens` is the one on top.
spec fn is_stack_of(stack: Seq<String>, tokens: Seq<Seq<char>>) -> bool {
    &&& stack.len() == tokens.len()
    &&& forall|i: int| 0 <= i < stack.len() ==> (#[trigger] stack[i])@ == tokens[tokens.len() - 1 - i]
}

/// Turns a list of tokens into a stack with the first token on top.
fn into_stack(tokens: Vec<String>) -> (stack: Vec<String>)
    ensures
        is_stack_of(stack@, token_views(tokens@)),
{
    let mut tokens = tokens;
    let mut stack: Vec<String> = Vec::new();
    let ghost all = token_views(tokens@);
    while tokens.len() > 0
        invariant
            stack@.len() + tokens@.len() == all.len(),
            forall|i: int| 0 <= i < tokens@.len() ==> (#[trigger] tokens@[i])@ == all[i],
            forall|i: int|
                0 <= i < stack@.len() ==> (#[trigger] stack@[i])@ == all[all.len() - 1 - i],
        decreases tokens.len(),
    {
        let token = tokens.pop().unwrap();
        stack.push(token);
    }
    stack
}

/// Reads `token` as the name of an argument.
fn read_name(token: String) -> (r: Result<ArgName, ParseError>)
    ensures
        match token_name(token@) {
            Ok(name) => r matches Ok(n) && n@ == name,
            Err(e) => r matches Err(err) && err@ == e,
        },
{
    let text = token.as_str();
    let len = text.unicode_len();
    if len >= 2 && text.get_char(0) == '-' && text.get_char(1) == '-' {
        if len == 2 {
            Err(ParseError::MalformedLongArgument { token })
        } else {
            let name = ArgName::long(text.substring_char(2, len));
            Ok(name)
        }
    } else if len >= 1 && text.get_char(0) == '-' {
        if len == 1 {
            Err(ParseError::MalformedShortArgument { token })
        } else {
            Ok(ArgName::short(text.get_char(1)))
        }
    } else {
        Err(ParseError::NotAnArgument { token })
    }
}

/// Matches the tokens of a command line against the arguments of a command.
///
/// On success the list holds, for each argument, the value that was entered
/// last (or still its default) and how often the argument was entered. The
/// counts must leave room for one more occurrence for each token.
pub fn args(argslist: ArgList, inputargs: Vec<String>) -> (r: Result<ArgList, ParseError>)
    requires
        total_count(argslist@) + inputargs.len() <= usize::MAX,
    ensures
        match match_tokens(argslist@, token_views(inputargs@)) {
            Ok(after) => r matches Ok(list) && list@ == after,
            Err(e) => r matches Err(err) && err@ == e,
        },
{
    let ghost mut rest = token_views(inputargs@);
    let mut list = argslist;
    let mut pending = into_stack(inputargs);
    while pending.len() > 0
        invariant
            is_stack_of(pending@, rest),
            match_tokens(list@, rest) == match_tokens(argslist@, token_views(inputargs@)),
            total_count(list@) + pending@.len() <= usize::MAX,
        decreases pending@.len(),
    {
        let token = pending.pop().unwrap();
        let argname = match read_name(token) {
            Ok(argname) => argname,
            Err(e) => {
                return Err(e);
            },
        };
        match list.init_arg(&argname, &mut pending) {
            Ok(()) => {},
            Err(e) => {
                return Err(e);
            },
        }
        proof {
            rest = rest.skip(rest.len() - pending@.len());
        }
    }
    Ok(list)
}

/// Where the leading tokens of a command line lead to, from the command
/// `root`: the command that is reached and the tokens that are left.
///
/// Each token at the front that starts with no dash must be the name of a
/// subcommand of the command reached so far, and leads on to that
/// subcommand. The walk ends before the first token that starts with a dash,
/// or when no token is left; it is stuck before a token that starts with no
/// dash and names no subcommand.
pub open spec fn resolve(root: CommandView, tokens: Seq<Seq<char>>) -> (CommandView, Seq<Seq<char>>)
    decreases tokens.len(),
{
    if tokens.len() == 0 || starts_with_dash(tokens[0]) {
        (root, tokens)
    } else {
        match find_command(root.subcommands, tokens[0]) {
            Some(i) => resolve(root.subcommands[i], tokens.skip(1)),
            None => (root, tokens),
        }
    }
}

/// The walk down the subcommands is stuck before the tokens `rest`: the
/// first of them should name a subcommand and names none.
pub open spec fn is_stuck(rest: Seq<Seq<char>>) -> bool {
    rest.len() > 0 && !starts_with_dash(rest[0])
}

/// Takes the command called `name` out of `subcmds`.
pub(crate) fn extract(subcmds: Vec<Command>, name: &str) -> (r: Option<Command>)
    ensures
        match find_command(command_views(subcmds@), name@) {
            Some(i) => r matches Some(found) && found@ == command_views(subcmds@)[i],
            None => r is None,
        },
{
    let mut list = subcmds;
    let ghost views = command_views(subcmds@);
    proof {
        lemma_command_views(subcmds@);
        assert forall|j: int| 0 <= j < subcmds@.len() implies (#[trigger] views[j]).name
            == subcmds@[j].name@ by {
            subcmds@[j].lemma_view();
        }
    }
    let mut i: usize = 0;
    while i < list.len()
        invariant
            list@ == subcmds@,
            views == command_views(subcmds@),
            i <= subcmds@.len(),
            views.len() == subcmds@.len(),
            forall|j: int| 0 <= j < subcmds@.len() ==> #[trigger] views[j] == subcmds@[j]@,
            forall|j: int|
                0 <= j < subcmds@.len() ==> (#[trigger] views[j]).name == subcmds@[j].name@,
            find_command(views, name@) == first_named_from(views, name@, i as int),
        decreases subcmds@.len() - i,
    {
        if str_eq(list[i].name, name) {
            return Some(list.remove(i));
        }
        i += 1;
    }
    None
}

/// Walks down from `root` along the subcommands that the tokens at the
/// front of `args` name, and takes those tokens off.
///
/// Fails if a token that should name a subcommand names none; `args` then
/// starts with that token.
pub fn traverse(root: Command, args: &mut Vec<String>) -> (r: Result<Command, ParseError>)
    ensures
        token_views(final(args)@) == resolve(root@, token_views(old(args)@)).1,
        if is_stuck(resolve(root@, token_views(old(args)@)).1) {
            r matches Err(e) && e@ == (ErrorView::UnknownSubcommand {
                token: resolve(root@, token_views(old(args)@)).1[0],
            })
        } else {
            r matches Ok(found) && found@ == resolve(root@, token_views(old(args)@)).0
                && found@.well_formed()
        },
{
    let ghost tokens = token_views(args@);
    let mut cmd = root;
    let mut consumed: usize = 0;
    assert(tokens.skip(0) =~= tokens);
    while consumed < args.len()
        invariant
            consumed <= args@.len(),
            tokens == token_views(args@),
            tokens == token_views(old(args)@),
            resolve(cmd@, tokens.skip(consumed as int)) == resolve(root@, tokens),
        ensures
            consumed <= args@.len(),
            tokens == token_views(args@),
            resolve(cmd@, tokens.skip(consumed as int)) == resolve(root@, tokens),
            consumed == args@.len() || starts_with_dash(tokens[consumed as int]),
        decreases args@.len() - consumed,
    {
        let token = args[consumed].as_str();
        if !token.is_empty() && token.get_char(0) == '-' {
            break ;
        }
        proof {
            cmd.lemma_view();
        }
        match extract(cmd.subcommands, token) {
            Some(found) => {
                cmd = found;
                consumed += 1;
                assert(tokens.skip(consumed - 1).skip(1) =~= tokens.skip(consumed as int));
            },
            None => {
                let unknown = args[consumed].clone();
                let rest = args.split_off(consumed);
                *args = rest;
                return Err(ParseError::UnknownSubcommand { token: unknown });
            },
        }
    }
    let rest = args.split_off(consumed);
    *args = rest;
    proof {
        use_type_invariant(&cmd);
    }
    Ok(cmd)
}

/// What parsing a command line gives: the command that was addressed and
/// the state of its arguments.
#[non_exhaustive]
pub struct ParsedCommand {
    /// Name of the command or subcommand that was addressed.
    pub name: &'static str,
    /// The help page of that command, to be shown on request.
    pub help: String,
    /// The arguments of that command, with what was entered for them.
    pub args: ArgList,
    /// Names of the commands above that command, as it recorded them;
    /// empty for the root.
    pub parents: Vec<&'static str>,
}

/// What a [`ParsedCommand`] stands for.
pub struct ParsedView {
    pub name: Seq<char>,
    pub help: Seq<char>,
    pub args: Seq<ArgView>,
    pub parents: Seq<Seq<char>>,
}

impl View for ParsedCommand {
    type V = ParsedView;

    open spec fn view(&self) -> ParsedView {
        ParsedView {
            name: self.name@,
            help: self.help@,
            args: self.args@,
            parents: name_views(self.parents@),
        }
    }
}

/// What the tokens of a command line, the name of the program left out,
/// mean to the command `root`.
///
/// The tokens at the front lead to the command that is addressed; the
/// tokens after them are matched against its arguments. Nothing is handed
/// out unless every token was accepted.
pub open spec fn parse_tokens(root: CommandView, tokens: Seq<Seq<char>>) -> Result<
    ParsedView,
    ErrorView,
> {
    let (command, rest) = resolve(root, tokens);
    if is_stuck(rest) {
        Err(ErrorView::UnknownSubcommand { token: rest[0] })
    } else {
        match match_tokens(command.args, rest) {
            Ok(args) => Ok(
                ParsedView {
                    name: command.name,
                    help: help_text(command),
                    args,
                    parents: command.parents,
                },
            ),
            Err(e) => Err(e),
        }
    }
}

/// Parses a command line for the command `root`.
///
/// The first token of `input` is taken to be the name of the program and
/// is passed over, so `input` must not be empty.
pub fn parse(root: Command, input: Vec<String>) -> (r: Result<ParsedCommand, ParseError>)
    requires
        input@.len() > 0,
    ensures
        match parse_tokens(root@, token_views(input@).skip(1)) {
            Ok(parsed) => r matches Ok(p) && p@ == parsed,
            Err(e) => r matches Err(err) && err@ == e,
        },
{
    let mut input = input;
    let ghost tokens = token_views(input@).skip(1);
    input.remove(0);
    assert(token_views(input@) =~= tokens);
    let command = match traverse(root, &mut input) {
        Ok(command) => command,
        Err(e) => {
            return Err(e);
        },
    };
    let help = crate::help::create(&command);
    proof {
        use_type_invariant(&command);
        command.lemma_view();
        lemma_none_entered_total(command@.args);
    }
    let Command { name, args: declared, parents, .. } = command;
    match args(declared, input) {
        Ok(args) => Ok(ParsedCommand { name, help, args, parents }),
        Err(e) => Err(e),
    }
}

/// The walk down the subcommands takes tokens off the front only, and goes
/// as far as it can: what is left is empty, or starts with a dash, or starts
/// with a token that names no subcommand of the command that was reached.
pub proof fn lemma_resolve_greedy(root: CommandView, tokens: Seq<Seq<char>>)
    ensures
        ({
            let (command, rest) = resolve(root, tokens);
            &&& rest.len() <= tokens.len()
            &&& rest == tokens.skip(tokens.len() - rest.len())
            &&& is_stuck(rest) ==> find_command(command.subcommands, rest[0]) is None
        }),
    decreases tokens.len(),
{
    if tokens.len() > 0 && !starts_with_dash(tokens[0]) {
        if let Some(i) = find_command(root.subcommands, tokens[0]) {
            lemma_resolve_greedy(root.subcommands[i], tokens.skip(1));
        }
    }
}

/// The name of a subcommand, at the front of the command line, leads to
/// that subcommand, wherever it stands among the subcommands of its parent.
pub proof fn lemma_resolve_enters_subcommand(root: CommandView, i: int, tokens: Seq<Seq<char>>)
    requires
        root.well_formed(),
        0 <= i < root.subcommands.len(),
        tokens.len() > 0,
        tokens[0] == root.subcommands[i].name,
        !starts_with_dash(tokens[0]),
    ensures
        resolve(root, tokens) == resolve(root.subcommands[i], tokens.skip(1)),
{
    crate::command::lemma_find_command_unique(root.subcommands, i);
}

/// The command that a walk down from a well-formed command reaches is well formed.
pub proof fn lemma_resolve_well_formed(root: CommandView, tokens: Seq<Seq<char>>)
    requires
        root.well_formed(),
    ensures
        resolve(root, tokens).0.well_formed(),
    decreases tokens.len(),
{
    if tokens.len() > 0 && !starts_with_dash(tokens[0]) {
        crate::command::lemma_find_command_first(root.subcommands, tokens[0]);
        if let Some(i) = find_command(root.subcommands, tokens[0]) {
            lemma_resolve_well_formed(root.subcommands[i], tokens.skip(1));
        }
    }
}

/// A command line that enters no argument gives back the arguments as they
/// were declared: each holds its default and has been entered zero times.
///
/// This holds of the root command on an empty command line, and of any
/// subcommand when the command line is just the path that leads to it.
pub proof fn lemma_parse_without_arguments(root: CommandView, tokens: Seq<Seq<char>>)
    requires
        root.well_formed(),
        resolve(root, tokens).1.len() == 0,
    ensures
        parse_tokens(root, tokens) == Ok::<ParsedView, ErrorView>(
            ParsedView {
                name: resolve(root, tokens).0.name,
                help: help_text(resolve(root, tokens).0),
                args: resolve(root, tokens).0.args,
                parents: resolve(root, tokens).0.parents,
            },
        ),
        none_entered(resolve(root, tokens).0.args),
        tokens.len() == 0 ==> resolve(root, tokens).0 == root,
{
    lemma_resolve_well_formed(root, tokens);
}

/// Parsing changes what was entered, never what was declared: the arguments
/// keep their number, their order, their names, their descriptions and the
/// kinds of their values, no count goes down, and the counts together go up
/// by no more than the number of tokens.
pub proof fn lemma_match_tokens_keeps_declaration(args: Seq<ArgView>, tokens: Seq<Seq<char>>)
    ensures
        match_tokens(args, tokens) matches Ok(after) ==> {
            &&& after.len() == args.len()
            &&& forall|i: int|
                0 <= i < args.len() ==> {
                    &&& (#[trigger] after[i]).name == args[i].name
                    &&& after[i].description == args[i].description
                    &&& after[i].value.takes_value() == args[i].value.takes_value()
                    &&& after[i].counter >= args[i].counter
                }
            &&& total_count(after) <= total_count(args) + tokens.len()
        },
    decreases tokens.len(),
{
    if tokens.len() > 0 {
        if let Ok(name) = token_name(tokens[0]) {
            crate::arg::lemma_lookup_first(args, name);
            let takes = expects_value(args, name) && tokens.len() >= 2;
            let next = if takes {
                Some(tokens[1])
            } else {
                None
            };
            let later = if takes {
                tokens.skip(2)
            } else {
                tokens.skip(1)
            };
            if let Ok(once) = enter(args, name, next) {
                let at = lookup(args, name)->0;
                crate::arg::lemma_total_count_update(args, at, once[at]);
                lemma_match_tokens_keeps_declaration(once, later);
            }
        }
    }
}

/// Last write wins: when an argument that carries a value is entered twice,
/// it ends up with the second value and is counted twice.
pub proof fn lemma_last_value_wins(
    args: Seq<ArgView>,
    token: Seq<char>,
    first: Seq<char>,
    second: Seq<char>,
)
    requires
        token_name(token) is Ok,
        lookup(args, token_name(token)->Ok_0) is Some,
        args[lookup(args, token_name(token)->Ok_0)->0].value.takes_value(),
        args[lookup(args, token_name(token)->Ok_0)->0].value.read(first) is Some,
        args[lookup(args, token_name(token)->Ok_0)->0].value.read(second) is Some,
    ensures
        ({
            let i = lookup(args, token_name(token)->Ok_0)->0;
            match_tokens(args, seq![token, first, token, second]) == Ok::<Seq<ArgView>, ErrorView>(
                args.update(
                    i,
                    ArgView {
                        value: args[i].value.read(second)->0,
                        counter: args[i].counter + 2,
                        ..args[i]
                    },
                ),
            )
        }),
{
    let name = token_name(token)->Ok_0;
    let i = lookup(args, name)->0;
    crate::arg::lemma_lookup_first(args, name);
    let tokens = seq![token, first, token, second];
    let once = args.update(
        i,
        ArgView { value: args[i].value.read(first)->0, counter: args[i].counter + 1, ..args[i] },
    );
    let later = tokens.skip(2);
    lemma_lookup_by_names(args, once, name);
    let twice = once.update(
        i,
        ArgView { value: once[i].value.read(second)->0, counter: once[i].counter + 1, ..once[i] },
    );
    assert(match_tokens(once, later) == match_tokens(twice, later.skip(2)));
    assert(twice =~= args.update(
        i,
        ArgView { value: args[i].value.read(second)->0, counter: args[i].counter + 2, ..args[i] },
    ));
}

/// Flags count: a flag that is entered `n` times in a row is counted `n`
/// times more, and nothing else changes.
pub proof fn lemma_flag_counts(args: Seq<ArgView>, token: Seq<char>, n: nat)
    requires
        token_name(token) is Ok,
        lookup(args, token_name(token)->Ok_0) is Some,
        !args[lookup(args, token_name(token)->Ok_0)->0].value.takes_value(),
    ensures
        ({
            let i = lookup(args, token_name(token)->Ok_0)->0;
            match_tokens(args, Seq::new(n, |k: int| token)) == Ok::<Seq<ArgView>, ErrorView>(
                args.update(i, ArgView { counter: args[i].counter + n, ..args[i] }),
            )
        }),
    decreases n,
{
    let name = token_name(token)->Ok_0;
    let i = lookup(args, name)->0;
    crate::arg::lemma_lookup_first(args, name);
    let tokens = Seq::new(n, |k: int| token);
    if n == 0 {
        assert(args.update(i, ArgView { counter: args[i].counter + n, ..args[i] }) =~= args);
    } else {
        let once = args.update(i, ArgView { counter: args[i].counter + 1, ..args[i] });
        assert(tokens.skip(1) =~= Seq::new((n - 1) as nat, |k: int| token));
        lemma_lookup_by_names(args, once, name);
        lemma_flag_counts(once, token, (n - 1) as nat);
        assert(once.update(i, ArgView { counter: once[i].counter + (n - 1) as nat, ..once[i] })
            =~= args.update(i, ArgView { counter: args[i].counter + n, ..args[i] }));
    }
}

} // verus!
