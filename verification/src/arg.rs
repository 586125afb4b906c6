//! A declared argument and what parsing has recorded for it.

use crate::error::{ErrorView, ParseError};
use crate::name::{names_match, ArgName, NameView};
use crate::number::FloatText;
use crate::value::{ArgValue, ValueView};
use std::path::PathBuf;
use vstd::prelude::*;

verus! {

/// An argument of a command: how it is named, what it carries, and how often
/// it has been entered.
#[non_exhaustive]
pub struct Arg {
    /// Name of this argument.
    pub argname: ArgName,
    /// Value of this argument.
    ///
    /// Holds the default until the argument is entered, then what was
    /// entered last. The inner value is `None` when there is neither.
    pub argvalue: ArgValue,
    /// Description of this argument.
    pub description: &'static str,
    /// How many times this argument was entered on the command line.
    ///
    /// An argument may be entered more than once; if it carries a value only
    /// the last one is kept.
    pub counter: usize,
}

/// What an [`Arg`] stands for.
pub struct ArgView {
    pub name: NameView,
    pub value: ValueView,
    pub description: Seq<char>,
    pub counter: nat,
}

impl ArgView {
    /// What one more occurrence on the command line makes of the argument.
    ///
    /// `next` is the token that follows the argument's name, if there is one.
    /// A flag is counted and leaves that token alone. Any other argument
    /// takes the token as its new value and is counted; it fails if there is
    /// no token or if the token is not a value of its kind.
    pub open spec fn occurrence(self, next: Option<Seq<char>>) -> Result<ArgView, ErrorView> {
        if !self.value.takes_value() {
            Ok(ArgView { counter: self.counter + 1, ..self })
        } else {
            match next {
                None => Err(ErrorView::MissingValue { argument: self.name }),
                Some(text) => match self.value.read(text) {
                    Some(value) => Ok(ArgView { value, counter: self.counter + 1, ..self }),
                    None => Err(
                        ErrorView::InvalidNumericValue { argument: self.name, raw_text: text },
                    ),
                },
            }
        }
    }
}

impl View for Arg {
    type V = ArgView;

    open spec fn view(&self) -> ArgView {
        ArgView {
            name: self.argname@,
            value: self.argvalue@,
            description: self.description@,
            counter: self.counter as nat,
        }
    }
}

/// The token on top of a stack of tokens, which is the next one to be read.
pub open spec fn top_token(stack: Seq<String>) -> Option<Seq<char>> {
    if stack.len() == 0 {
        None
    } else {
        Some(stack.last()@)
    }
}

impl Arg {
    /// Declares an argument that has not been entered yet.
    pub(crate) fn new(argname: ArgName, argvalue: ArgValue, description: &'static str) -> (r: Self)
        ensures
            r@ == (ArgView {
                name: argname@,
                value: argvalue@,
                description: description@,
                counter: 0,
            }),
    {
        Arg { argname, argvalue, description, counter: 0 }
    }

    /// The string carried by the argument.
    ///
    /// `None` if the argument is not a string, or has neither been entered
    /// nor been given a default.
    pub fn string(&self) -> (r: Option<&str>)
        ensures
            match self@.value {
                ValueView::String(Some(s)) => r matches Some(t) && t@ == s,
                _ => r is None,
            },
    {
        if let ArgValue::String(Some(value)) = &self.argvalue {
            Some(value.as_str())
        } else {
            None
        }
    }

    /// The integer carried by the argument.
    ///
    /// `None` if the argument is not an integer, or has neither been entered
    /// nor been given a default.
    pub fn num(&self) -> (r: Option<i64>)
        ensures
            r == match self@.value {
                ValueView::Num(n) => n,
                _ => None,
            },
    {
        if let ArgValue::Num(Some(value)) = self.argvalue {
            Some(value)
        } else {
            None
        }
    }

    /// The floating-point literal carried by the argument.
    ///
    /// `None` if the argument is not a floating-point number, or has neither
    /// been entered nor been given a default.
    pub fn float(&self) -> (r: Option<&FloatText>)
        ensures
            match self@.value {
                ValueView::Float(Some(s)) => r matches Some(t) && t@ == s,
                _ => r is None,
            },
    {
        if let ArgValue::Float(Some(value)) = &self.argvalue {
            Some(value)
        } else {
            None
        }
    }

    /// The path carried by the argument.
    ///
    /// `None` if the argument is not a path, or has neither been entered nor
    /// been given a default.
    pub fn path(&self) -> (r: Option<&PathBuf>)
        ensures
            match self@.value {
                ValueView::Path(Some(s)) => r matches Some(p) && crate::text::path_text(*p) == s,
                _ => r is None,
            },
    {
        if let ArgValue::Path(Some(value)) = &self.argvalue {
            Some(value)
        } else {
            None
        }
    }

    /// Records one occurrence of the argument.
    ///
    /// `input` holds the tokens that follow the argument's name, the next one
    /// last. A flag leaves them alone; any other argument takes the next
    /// token off as its value.
    pub(crate) fn init(&mut self, input: &mut Vec<String>) -> (r: Result<(), ParseError>)
        requires
            old(self).counter < usize::MAX,
        ensures
            match old(self)@.occurrence(top_token(old(input)@)) {
                Ok(after) => r is Ok && final(self)@ == after,
                Err(e) => r matches Err(err) && err@ == e && final(self)@ == old(self)@,
            },
            final(input)@ == if old(self)@.value.takes_value() && old(input)@.len() > 0 {
                old(input)@.drop_last()
            } else {
                old(input)@
            },
    {
        if self.argvalue.takes_value() {
            match input.pop() {
                None => {
                    return Err(ParseError::MissingValue { argument: self.argname.clone() });
                },
                Some(token) => match self.argvalue.read(token) {
                    Ok(value) => {
                        self.argvalue = value;
                    },
                    Err(raw_text) => {
                        return Err(
                            ParseError::InvalidNumericValue {
                                argument: self.argname.clone(),
                                raw_text,
                            },
                        );
                    },
                },
            }
        }
        self.counter += 1;
        Ok(())
    }
}

impl Clone for Arg {
    fn clone(&self) -> (r: Self)
        ensures
            r@ == self@,
    {
        Arg {
            argname: self.argname.clone(),
            argvalue: self.argvalue.clone(),
            description: self.description,
            counter: self.counter,
        }
    }
}

/// The place of the first argument at or after `from` whose name equals `name`.
pub open spec fn first_match_from(args: Seq<ArgView>, name: NameView, from: int) -> Option<int>
    decreases args.len() - from,
{
    if from < 0 || from >= args.len() {
        None
    } else if names_match(args[from].name, name) {
        Some(from)
    } else {
        first_match_from(args, name, from + 1)
    }
}

/// The place of the argument that `name` refers to: the first one whose name
/// equals `name`.
pub open spec fn lookup(args: Seq<ArgView>, name: NameView) -> Option<int> {
    first_match_from(args, name, 0)
}

/// No two arguments have equal names.
pub open spec fn distinct_names(args: Seq<ArgView>) -> bool {
    forall|i: int, j: int|
        0 <= i < j < args.len() ==> !names_match(#[trigger] args[i].name, #[trigger] args[j].name)
}

/// How many arguments were entered in all.
pub open spec fn total_count(args: Seq<ArgView>) -> nat
    decreases args.len(),
{
    if args.len() == 0 {
        0
    } else {
        total_count(args.drop_last()) + args.last().counter
    }
}

/// No argument has been entered yet.
pub open spec fn none_entered(args: Seq<ArgView>) -> bool {
    forall|i: int| 0 <= i < args.len() ==> (#[trigger] args[i]).counter == 0
}

/// The arguments of a command, in the order in which they were declared.
pub struct ArgList {
    args: Vec<Arg>,
}

/// What each of `args` stands for, in the same order.
pub open spec fn arg_views(args: Seq<Arg>) -> Seq<ArgView> {
    args.map_values(|a: Arg| a@)
}

impl View for ArgList {
    type V = Seq<ArgView>;

    closed spec fn view(&self) -> Seq<ArgView> {
        arg_views(self.args@)
    }
}

/// What one occurrence of `name` on the command line makes of the arguments.
///
/// `next` is the token that follows the name, if there is one. The argument
/// that `name` refers to records the occurrence; the others stay as they are.
pub open spec fn enter(args: Seq<ArgView>, name: NameView, next: Option<Seq<char>>) -> Result<
    Seq<ArgView>,
    ErrorView,
> {
    match lookup(args, name) {
        None => Err(ErrorView::UnknownArgument { argument: name }),
        Some(i) => match args[i].occurrence(next) {
            Ok(after) => Ok(args.update(i, after)),
            Err(e) => Err(e),
        },
    }
}

/// Whether `name` refers to an argument that is followed by a value.
pub open spec fn expects_value(args: Seq<ArgView>, name: NameView) -> bool {
    lookup(args, name) matches Some(i) && args[i].value.takes_value()
}

/// What `lookup` finds is the first argument whose name equals `name`, and
/// it finds nothing only if there is no such argument.
pub proof fn lemma_lookup_first(args: Seq<ArgView>, name: NameView)
    ensures
        match lookup(args, name) {
            Some(i) => {
                &&& 0 <= i < args.len()
                &&& names_match(args[i].name, name)
                &&& forall|j: int| 0 <= j < i ==> !names_match(#[trigger] args[j].name, name)
            },
            None => forall|j: int| 0 <= j < args.len() ==> !names_match(#[trigger] args[j].name, name),
        },
{
    lemma_first_match_from(args, name, 0);
}

proof fn lemma_first_match_from(args: Seq<ArgView>, name: NameView, from: int)
    requires
        0 <= from,
    ensures
        match first_match_from(args, name, from) {
            Some(i) => {
                &&& from <= i < args.len()
                &&& names_match(args[i].name, name)
                &&& forall|j: int| from <= j < i ==> !names_match(#[trigger] args[j].name, name)
            },
            None => forall|j: int|
                from <= j < args.len() ==> !names_match(#[trigger] args[j].name, name),
        },
    decreases args.len() - from,
{
    if from < args.len() && !names_match(args[from].name, name) {
        lemma_first_match_from(args, name, from + 1);
    }
}

/// A lookup goes by the names alone: it finds the same place in two lists
/// whose arguments have the same names, one by one.
pub proof fn lemma_lookup_by_names(a: Seq<ArgView>, b: Seq<ArgView>, name: NameView)
    requires
        a.len() == b.len(),
        forall|i: int| 0 <= i < a.len() ==> (#[trigger] a[i]).name == b[i].name,
    ensures
        lookup(a, name) == lookup(b, name),
{
    lemma_first_match_by_names(a, b, name, 0);
}

proof fn lemma_first_match_by_names(a: Seq<ArgView>, b: Seq<ArgView>, name: NameView, from: int)
    requires
        a.len() == b.len(),
        forall|i: int| 0 <= i < a.len() ==> (#[trigger] a[i]).name == b[i].name,
        0 <= from,
    ensures
        first_match_from(a, name, from) == first_match_from(b, name, from),
    decreases a.len() - from,
{
    if from < a.len() {
        lemma_first_match_by_names(a, b, name, from + 1);
    }
}

/// No argument was entered more often than all of them together.
pub proof fn lemma_counter_within_total(args: Seq<ArgView>, i: int)
    requires
        0 <= i < args.len(),
    ensures
        args[i].counter <= total_count(args),
    decreases args.len(),
{
    if i < args.len() - 1 {
        lemma_counter_within_total(args.drop_last(), i);
    }
}

/// Replacing one argument changes the total by as much as its own count changes.
pub proof fn lemma_total_count_update(args: Seq<ArgView>, i: int, after: ArgView)
    requires
        0 <= i < args.len(),
    ensures
        total_count(args.update(i, after)) == total_count(args) - args[i].counter + after.counter,
    decreases args.len(),
{
    let updated = args.update(i, after);
    if i < args.len() - 1 {
        lemma_total_count_update(args.drop_last(), i, after);
        assert(updated.drop_last() =~= args.drop_last().update(i, after));
    } else {
        assert(updated.drop_last() =~= args.drop_last());
    }
}

/// The arguments at the front were not entered more often than all of them together.
pub proof fn lemma_total_count_prefix(args: Seq<ArgView>, k: int)
    requires
        0 <= k <= args.len(),
    ensures
        total_count(args.take(k)) <= total_count(args),
    decreases args.len() - k,
{
    if k == args.len() {
        assert(args.take(k) =~= args);
    } else {
        assert(args.take(k + 1).drop_last() =~= args.take(k));
        lemma_total_count_prefix(args, k + 1);
    }
}

/// Among arguments with distinct names, the name of the argument that a
/// lookup finds leads back to that same argument.
pub proof fn lemma_lookup_idempotent(args: Seq<ArgView>, name: NameView)
    requires
        distinct_names(args),
    ensures
        lookup(args, name) matches Some(i) ==> lookup(args, args[i].name) == Some(i),
{
    lemma_lookup_first(args, name);
    if let Some(i) = lookup(args, name) {
        lemma_lookup_own_name(args, i);
    }
}

/// Among arguments with distinct names, each is found under its own name
/// and under each form of it: a name with a short and a long form is found
/// under the short form alone and under the long form alone.
pub proof fn lemma_lookup_own_name(args: Seq<ArgView>, i: int)
    requires
        distinct_names(args),
        0 <= i < args.len(),
    ensures
        lookup(args, args[i].name) == Some(i),
        args[i].name.short() matches Some(c) ==> lookup(args, NameView::Short(c)) == Some(i),
        args[i].name.long() matches Some(word) ==> lookup(args, NameView::Long(word)) == Some(i),
{
    lemma_lookup_first(args, args[i].name);
    if let Some(c) = args[i].name.short() {
        lemma_lookup_first(args, NameView::Short(c));
    }
    if let Some(word) = args[i].name.long() {
        lemma_lookup_first(args, NameView::Long(word));
    }
}

/// While no argument has been entered the total is zero.
pub proof fn lemma_none_entered_total(args: Seq<ArgView>)
    requires
        none_entered(args),
    ensures
        total_count(args) == 0,
    decreases args.len(),
{
    if args.len() > 0 {
        lemma_none_entered_total(args.drop_last());
    }
}

impl ArgList {
    #[verifier::type_invariant]
    spec fn well_formed(self) -> bool {
        distinct_names(self@) && total_count(self@) <= usize::MAX
    }

    /// A list without arguments.
    pub(crate) fn new() -> (r: Self)
        ensures
            r@ == Seq::<ArgView>::empty(),
    {
        let r = ArgList { args: Vec::new() };
        r
    }

    /// The list with one more argument after those that it holds.
    pub(crate) fn insert(self, arg: Arg) -> (r: Self)
        requires
            lookup(self@, arg@.name) is None,
            total_count(self@) + arg@.counter <= usize::MAX,
        ensures
            r@ == self@.push(arg@),
    {
        proof {
            use_type_invariant(&self);
            lemma_lookup_first(self@, arg@.name);
            assert(self@.push(arg@).drop_last() =~= self@);
            assert(arg_views(self.args@.push(arg)) =~= self@.push(arg@));
        }
        let mut args = self.args;
        args.push(arg);
        ArgList { args }
    }

    /// The arguments themselves, in the order in which they were declared.
    pub fn inner(&self) -> (r: &Vec<Arg>)
        ensures
            arg_views(r@) == self@,
            distinct_names(self@),
    {
        proof {
            use_type_invariant(self);
        }
        &self.args
    }

    /// The argument that `argname` refers to.
    ///
    /// The list must hold such an argument; use [`ArgList::try_get`] when
    /// that is not known.
    pub fn get(&self, argname: ArgName) -> (r: &Arg)
        requires
            lookup(self@, argname@) is Some,
        ensures
            r@ == self@[lookup(self@, argname@)->0],
    {
        let i = self.position(&argname);
        &self.args[i]
    }

    /// The argument that `argname` refers to, or `None` if the list holds none.
    pub fn try_get(&self, argname: ArgName) -> (r: Option<&Arg>)
        ensures
            match lookup(self@, argname@) {
                Some(i) => r matches Some(arg) && arg@ == self@[i],
                None => r is None,
            },
    {
        let i = self.position(&argname);
        if i < self.args.len() {
            Some(&self.args[i])
        } else {
            None
        }
    }

    /// How many arguments were entered in all, each counted as often as it
    /// was entered.
    pub fn total_count(&self) -> (r: usize)
        ensures
            r == total_count(self@),
    {
        proof {
            use_type_invariant(self);
        }
        let n = self.args.len();
        let mut count: usize = 0;
        let mut i: usize = 0;
        while i < n
            invariant
                n == self.args@.len(),
                n == self@.len(),
                i <= n,
                count == total_count(self@.take(i as int)),
                total_count(self@) <= usize::MAX,
            decreases n - i,
        {
            proof {
                assert(self@.take(i + 1).drop_last() =~= self@.take(i as int));
                lemma_total_count_prefix(self@, i + 1);
            }
            count += self.args[i].counter;
            i += 1;
        }
        assert(self@.take(n as int) =~= self@);
        count
    }

    /// How many times the argument that `argname` refers to was entered.
    ///
    /// The list must hold such an argument.
    pub fn count(&self, argname: ArgName) -> (r: usize)
        requires
            lookup(self@, argname@) is Some,
        ensures
            r == self@[lookup(self@, argname@)->0].counter,
    {
        let i = self.position(&argname);
        self.args[i].counter
    }

    /// The place of the argument that `argname` refers to, or the number of
    /// arguments if it refers to none.
    fn position(&self, argname: &ArgName) -> (i: usize)
        ensures
            match lookup(self@, argname@) {
                Some(at) => i == at && i < self@.len(),
                None => i == self@.len(),
            },
            self@.len() == self.args@.len(),
    {
        let n = self.args.len();
        let mut i: usize = 0;
        while i < n && !(self.args[i].argname == *argname)
            invariant
                n == self.args@.len(),
                n == self@.len(),
                i <= n,
                lookup(self@, argname@) == first_match_from(self@, argname@, i as int),
            decreases n - i,
        {
            i += 1;
        }
        i
    }

    /// Records one occurrence of the argument that `argname` refers to.
    ///
    /// `input` holds the tokens that follow the name, the next one last; the
    /// argument takes its value from there if it carries one.
    pub(crate) fn init_arg(&mut self, argname: &ArgName, input: &mut Vec<String>) -> (r: Result<
        (),
        ParseError,
    >)
        requires
            total_count(old(self)@) < usize::MAX,
        ensures
            match enter(old(self)@, argname@, top_token(old(input)@)) {
                Ok(after) => r is Ok && final(self)@ == after,
                Err(e) => r matches Err(err) && err@ == e && final(self)@ == old(self)@,
            },
            final(input)@ == if expects_value(old(self)@, argname@) && old(input)@.len() > 0 {
                old(input)@.drop_last()
            } else {
                old(input)@
            },
            total_count(final(self)@) <= total_count(old(self)@) + 1,
    {
        proof {
            use_type_invariant(&*self);
        }
        let i = self.position(argname);
        if i == self.args.len() {
            return Err(ParseError::UnknownArgument { argument: argname.clone() });
        }
        let ghost before = self@;
        proof {
            lemma_counter_within_total(before, i as int);
        }
        // The arguments are taken out while one of them changes: the list
        // as a whole is what has to stay well formed.
        let mut args: Vec<Arg> = Vec::new();
        core::mem::swap(&mut self.args, &mut args);
        let r = args[i].init(input);
        proof {
            let after = arg_views(args@);
            assert(after =~= before.update(i as int, args@[i as int]@));
            lemma_total_count_update(before, i as int, args@[i as int]@);
        }
        core::mem::swap(&mut self.args, &mut args);
        r
    }
}

} // verus!
