//! Commands: what a program accepts, and the tree of its subcommands.

use crate::arg::{distinct_names, lookup, none_entered, Arg, ArgList, ArgView};
use crate::error::{BuildError, BuildErrorView, ParseError};
use crate::name::ArgName;
use crate::parser::{parse_tokens, token_views, ParsedCommand};
use crate::text::str_eq;
use crate::value::ArgValue;
use vstd::prelude::*;

verus! {

/// A command: its name and what is said of it on the help page, the
/// arguments it accepts, and its subcommands.
///
/// A command is put together with [`Command::create`] and the methods that
/// take and give back the command, and is then handed to
/// [`Command::parse_from`].
pub struct Command {
    pub(crate) name: &'static str,
    pub(crate) description: &'static str,
    pub(crate) author: Option<&'static str>,
    pub(crate) version: Option<&'static str>,
    pub(crate) license: Option<&'static str>,
    pub(crate) color: bool,
    pub(crate) args: ArgList,
    pub(crate) subcommands: Vec<Command>,
    pub(crate) parents: Vec<&'static str>,
}

/// What a [`Command`] stands for.
pub struct CommandView {
    pub name: Seq<char>,
    pub description: Seq<char>,
    pub author: Option<Seq<char>>,
    pub version: Option<Seq<char>>,
    pub license: Option<Seq<char>>,
    pub color: bool,
    pub args: Seq<ArgView>,
    pub subcommands: Seq<CommandView>,
    pub parents: Seq<Seq<char>>,
}

/// The place of the first of `commands` that is called `name`, at or after `from`.
pub open spec fn first_named_from(commands: Seq<CommandView>, name: Seq<char>, from: int) -> Option<int>
    decreases commands.len() - from,
{
    if from < 0 || from >= commands.len() {
        None
    } else if commands[from].name == name {
        Some(from)
    } else {
        first_named_from(commands, name, from + 1)
    }
}

/// The place of the command among `commands` that is called `name`.
pub open spec fn find_command(commands: Seq<CommandView>, name: Seq<char>) -> Option<int> {
    first_named_from(commands, name, 0)
}

/// No two of `commands` have the same name.
pub open spec fn distinct_command_names(commands: Seq<CommandView>) -> bool {
    forall|i: int, j: int|
        0 <= i < j < commands.len() ==> (#[trigger] commands[i]).name != (#[trigger] commands[j]).name
}

/// What `find_command` finds is the first command called `name`, and it
/// finds nothing only if no command is called so.
pub proof fn lemma_find_command_first(commands: Seq<CommandView>, name: Seq<char>)
    ensures
        match find_command(commands, name) {
            Some(i) => {
                &&& 0 <= i < commands.len()
                &&& commands[i].name == name
                &&& forall|j: int| 0 <= j < i ==> (#[trigger] commands[j]).name != name
            },
            None => forall|j: int| 0 <= j < commands.len() ==> (#[trigger] commands[j]).name != name,
        },
{
    lemma_first_named_from(commands, name, 0);
}

proof fn lemma_first_named_from(commands: Seq<CommandView>, name: Seq<char>, from: int)
    requires
        0 <= from,
    ensures
        match first_named_from(commands, name, from) {
            Some(i) => {
                &&& from <= i < commands.len()
                &&& commands[i].name == name
                &&& forall|j: int| from <= j < i ==> (#[trigger] commands[j]).name != name
            },
            None => forall|j: int|
                from <= j < commands.len() ==> (#[trigger] commands[j]).name != name,
        },
    decreases commands.len() - from,
{
    if from < commands.len() && commands[from].name != name {
        lemma_first_named_from(commands, name, from + 1);
    }
}

/// Among commands with distinct names a name leads to the one command that
/// bears it, wherever that command stands among the others.
pub proof fn lemma_find_command_unique(commands: Seq<CommandView>, i: int)
    requires
        distinct_command_names(commands),
        0 <= i < commands.len(),
    ensures
        find_command(commands, commands[i].name) == Some(i),
{
    lemma_find_command_first(commands, commands[i].name);
}

impl CommandView {
    /// What holds of every command before it is parsed: its arguments have
    /// distinct names and none has been entered, its subcommands have
    /// distinct names, and the same holds of each subcommand.
    pub open spec fn well_formed(self) -> bool
        decreases self,
    {
        &&& distinct_names(self.args)
        &&& none_entered(self.args)
        &&& distinct_command_names(self.subcommands)
        &&& forall|i: int|
            0 <= i < self.subcommands.len() ==> (#[trigger] self.subcommands[i]).well_formed()
    }

    /// The command as it is once it has become a subcommand of `parent`:
    /// the names of the parent's own ancestors and of the parent are what it
    /// records as its ancestors.
    pub open spec fn attached_to(self, parent: CommandView) -> CommandView {
        CommandView { parents: parent.parents.push(parent.name), ..self }
    }
}

/// What each of `names` holds, in the same order.
pub open spec fn name_views(names: Seq<&'static str>) -> Seq<Seq<char>> {
    names.map_values(|s: &'static str| s@)
}

/// What an optional piece of text holds.
pub open spec fn text_view(text: Option<&'static str>) -> Option<Seq<char>> {
    match text {
        Some(s) => Some(s@),
        None => None,
    }
}

/// What each of `commands` stands for, in the same order.
pub closed spec fn command_views(commands: Seq<Command>) -> Seq<CommandView>
    decreases commands,
{
    if commands.len() == 0 {
        Seq::empty()
    } else {
        command_views(commands.drop_last()).push(commands.last()@)
    }
}

impl View for Command {
    type V = CommandView;

    closed spec fn view(&self) -> CommandView
        decreases self,
    {
        CommandView {
            name: self.name@,
            description: self.description@,
            author: text_view(self.author),
            version: text_view(self.version),
            license: text_view(self.license),
            color: self.color,
            args: self.args@,
            subcommands: command_views(self.subcommands@),
            parents: name_views(self.parents@),
        }
    }
}

/// `command_views` keeps the number and the order of the commands.
pub(crate) proof fn lemma_command_views(commands: Seq<Command>)
    ensures
        command_views(commands).len() == commands.len(),
        forall|i: int|
            0 <= i < commands.len() ==> #[trigger] command_views(commands)[i] == commands[i]@,
    decreases commands.len(),
{
    reveal_with_fuel(command_views, 2);
    if commands.len() > 0 {
        lemma_command_views(commands.drop_last());
    }
}

impl Command {
    /// What the view of a command is made of, field by field.
    pub(crate) proof fn lemma_view(self)
        ensures
            self@.name == self.name@,
            self@.description == self.description@,
            self@.author == text_view(self.author),
            self@.version == text_view(self.version),
            self@.license == text_view(self.license),
            self@.color == self.color,
            self@.args == self.args@,
            self@.parents == name_views(self.parents@),
            self@.subcommands == command_views(self.subcommands@),
            self@.subcommands.len() == self.subcommands@.len(),
            forall|i: int|
                0 <= i < self.subcommands@.len() ==> #[trigger] self@.subcommands[i]
                    == self.subcommands@[i]@,
    {
        lemma_command_views(self.subcommands@);
    }

    #[verifier::type_invariant]
    pub(crate) open spec fn type_invariant(self) -> bool {
        self@.well_formed()
    }

    /// A command without arguments or subcommands. Its help page is colored
    /// unless [`Command::color`] says otherwise.
    pub fn create(name: &'static str, description: &'static str) -> (r: Self)
        ensures
            r@ == (CommandView {
                name: name@,
                description: description@,
                author: None,
                version: None,
                license: None,
                color: true,
                args: Seq::empty(),
                subcommands: Seq::empty(),
                parents: Seq::empty(),
            }),
            r@.well_formed(),
    {
        let r = Command {
            name,
            description,
            version: None,
            author: None,
            license: None,
            args: ArgList::new(),
            subcommands: Vec::new(),
            parents: Vec::new(),
            color: true,
        };
        proof {
            assert(r@.parents =~= Seq::empty());
        }
        r
    }

    /// Whether the command declares an argument whose name equals `argname`.
    pub fn has_arg(&self, argname: &ArgName) -> (r: bool)
        ensures
            r == lookup(self@.args, argname@).is_some(),
    {
        self.args.try_get(argname.clone()).is_some()
    }

    /// Whether the command has a subcommand called `name`.
    pub fn has_subcommand(&self, name: &str) -> (r: bool)
        ensures
            r == find_command(self@.subcommands, name@).is_some(),
    {
        proof {
            self.lemma_view();
        }
        let n = self.subcommands.len();
        let mut i: usize = 0;
        while i < n && !str_eq(self.subcommands[i].name, name)
            invariant
                n == self.subcommands@.len(),
                n == self@.subcommands.len(),
                forall|j: int|
                    0 <= j < n ==> (#[trigger] self@.subcommands[j]).name
                        == self.subcommands@[j].name@,
                i <= n,
                find_command(self@.subcommands, name@) == first_named_from(
                    self@.subcommands,
                    name@,
                    i as int,
                ),
            decreases n - i,
        {
            i += 1;
        }
        proof {
            lemma_first_named_from(self@.subcommands, name@, i as int);
        }
        i < n
    }

    /// Parses a command line, given as the list of its tokens.
    ///
    /// The first token is taken to be the name of the program and is passed
    /// over, so `args` must not be empty.
    pub fn parse_from(self, args: Vec<String>) -> (r: Result<ParsedCommand, ParseError>)
        requires
            args@.len() > 0,
        ensures
            match parse_tokens(self@, token_views(args@).skip(1)) {
                Ok(parsed) => r matches Ok(p) && p@ == parsed,
                Err(e) => r matches Err(err) && err@ == e,
            },
    {
        crate::parser::parse(self, args)
    }

    /// Declares an argument.
    ///
    /// The command must not declare an argument with an equal name yet.
    pub fn arg(self, argname: ArgName, argtype: ArgValue, description: &'static str) -> (r: Self)
        requires
            lookup(self@.args, argname@) is None,
        ensures
            r@ == (CommandView {
                args: self@.args.push(
                    ArgView {
                        name: argname@,
                        value: argtype@,
                        description: description@,
                        counter: 0,
                    },
                ),
                ..self@
            }),
            r@.well_formed(),
    {
        proof {
            use_type_invariant(&self);
            self.lemma_view();
            crate::arg::lemma_none_entered_total(self@.args);
            crate::arg::lemma_lookup_first(self@.args, argname@);
        }
        let Command {
            name,
            description: about,
            author,
            version,
            license,
            color,
            args,
            subcommands,
            parents,
        } = self;
        let args = args.insert(Arg::new(argname, argtype, description));
        proof {
            let next = Command {
                name,
                description: about,
                author,
                version,
                license,
                color,
                args,
                subcommands,
                parents,
            };
            next.lemma_view();
        }
        let extended = Command {
            name,
            description: about,
            author,
            version,
            license,
            color,
            args,
            subcommands,
            parents,
        };
        proof {
            use_type_invariant(&extended);
        }
        extended
    }

    /// Declares an argument, unless the command already declares one with
    /// an equal name.
    pub fn try_arg(self, argname: ArgName, argtype: ArgValue, description: &'static str) -> (r:
        Result<Self, BuildError>)
        ensures
            match lookup(self@.args, argname@) {
                None => r matches Ok(command) && command@ == (CommandView {
                    args: self@.args.push(
                        ArgView {
                            name: argname@,
                            value: argtype@,
                            description: description@,
                            counter: 0,
                        },
                    ),
                    ..self@
                }) && command@.well_formed(),
                Some(_) => r matches Err(e) && e@ == (BuildErrorView::DuplicateArgument {
                    argument: argname@,
                }),
            },
    {
        if self.has_arg(&argname) {
            Err(BuildError::DuplicateArgument { argument: argname })
        } else {
            Ok(self.arg(argname, argtype, description))
        }
    }

    /// Adds a subcommand, unless the command already has one of the same name.
    pub fn try_subcommand(self, subcmd: Command) -> (r: Result<Self, BuildError>)
        ensures
            match find_command(self@.subcommands, subcmd@.name) {
                None => r matches Ok(command) && command@ == (CommandView {
                    subcommands: self@.subcommands.push(subcmd@.attached_to(self@)),
                    ..self@
                }) && command@.well_formed(),
                Some(_) => r matches Err(e) && e@ == (BuildErrorView::DuplicateSubcommand {
                    name: subcmd@.name,
                }),
            },
    {
        proof {
            subcmd.lemma_view();
        }
        if self.has_subcommand(subcmd.name) {
            Err(BuildError::DuplicateSubcommand { name: subcmd.name })
        } else {
            Ok(self.subcommand(subcmd))
        }
    }

    /// Adds a subcommand.
    ///
    /// The command must not have a subcommand of the same name yet. The
    /// subcommand records the command's ancestors and the command as its
    /// own ancestors; its own subcommands keep what they recorded.
    pub fn subcommand(self, subcmd: Command) -> (r: Self)
        requires
            find_command(self@.subcommands, subcmd@.name) is None,
        ensures
            r@ == (CommandView {
                subcommands: self@.subcommands.push(subcmd@.attached_to(self@)),
                ..self@
            }),
            r@.well_formed(),
    {
        proof {
            use_type_invariant(&self);
            self.lemma_view();
            lemma_find_command_first(self@.subcommands, subcmd@.name);
        }
        let mut subcmd = subcmd;
        subcmd.add_parents(copy_names(&self.parents), self.name);
        proof {
            use_type_invariant(&subcmd);
        }
        let Command {
            name,
            description,
            author,
            version,
            license,
            color,
            args,
            subcommands,
            parents,
        } = self;
        let mut subcommands = subcommands;
        subcommands.push(subcmd);
        proof {
            let next = Command {
                name,
                description,
                author,
                version,
                license,
                color,
                args,
                subcommands,
                parents,
            };
            next.lemma_view();
            assert(next@.subcommands =~= self@.subcommands.push(subcmd@));
        }
        let extended = Command {
            name,
            description,
            author,
            version,
            license,
            color,
            args,
            subcommands,
            parents,
        };
        proof {
            use_type_invariant(&extended);
        }
        extended
    }

    /// Sets the version shown on the help page.
    pub fn version(self, version: &'static str) -> (r: Self)
        ensures
            r@ == (CommandView { version: Some(version@), ..self@ }),
            r@.well_formed(),
    {
        proof {
            use_type_invariant(&self);
            self.lemma_rebuilt(Command { version: Some(version), ..self });
        }
        Command { version: Some(version), ..self }
    }

    /// Sets the author shown on the help page.
    pub fn author(self, author: &'static str) -> (r: Self)
        ensures
            r@ == (CommandView { author: Some(author@), ..self@ }),
            r@.well_formed(),
    {
        proof {
            use_type_invariant(&self);
            self.lemma_rebuilt(Command { author: Some(author), ..self });
        }
        Command { author: Some(author), ..self }
    }

    /// Sets the license shown on the help page.
    pub fn license(self, license: &'static str) -> (r: Self)
        ensures
            r@ == (CommandView { license: Some(license@), ..self@ }),
            r@.well_formed(),
    {
        proof {
            use_type_invariant(&self);
            self.lemma_rebuilt(Command { license: Some(license), ..self });
        }
        Command { license: Some(license), ..self }
    }

    /// Says whether the help page is colored.
    pub fn color(self, color: bool) -> (r: Self)
        ensures
            r@ == (CommandView { color, ..self@ }),
            r@.well_formed(),
    {
        proof {
            use_type_invariant(&self);
            self.lemma_rebuilt(Command { color, ..self });
        }
        Command { color, ..self }
    }

    /// Records `grandparents` followed by `parent` as the command's ancestors.
    fn add_parents(&mut self, grandparents: Vec<&'static str>, parent: &'static str)
        ensures
            final(self)@ == (CommandView {
                parents: name_views(grandparents@).push(parent@),
                ..old(self)@
            }),
    {
        let mut parents = grandparents;
        parents.push(parent);
        proof {
            use_type_invariant(&*self);
            self.lemma_rebuilt(Command { parents, ..*self });
            assert(name_views(parents@) =~= name_views(grandparents@).push(parent@));
        }
        self.parents = parents;
    }

    /// A command that differs from `self` in neither arguments nor
    /// subcommands is as well formed as `self`, and has the same view but
    /// for the other fields.
    proof fn lemma_rebuilt(self, next: Command)
        requires
            next.args@ == self.args@,
            next.subcommands@ == self.subcommands@,
        ensures
            next@.well_formed() == self@.well_formed(),
            next@ == (CommandView {
                name: next.name@,
                description: next.description@,
                author: text_view(next.author),
                version: text_view(next.version),
                license: text_view(next.license),
                color: next.color,
                parents: name_views(next.parents@),
                ..self@
            }),
    {
        self.lemma_view();
        next.lemma_view();
    }
}

/// A copy of a list of names.
fn copy_names(names: &Vec<&'static str>) -> (r: Vec<&'static str>)
    ensures
        r@ == names@,
{
    let mut copy: Vec<&'static str> = Vec::new();
    let mut i: usize = 0;
    while i < names.len()
        invariant
            i <= names.len(),
            copy@ == names@.take(i as int),
        decreases names.len() - i,
    {
        copy.push(names[i]);
        i += 1;
    }
    copy
}

} // verus!
