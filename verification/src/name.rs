//! Argument names and the rule by which two names are taken to be the same.

use crate::text::{push_char, smol_as_str, smol_eq, smol_from_static, smol_from_str, smol_text};
use smol_str::SmolStr;
use vstd::prelude::*;
use vstd::std_specs::cmp::PartialEqSpecImpl;
use vstd::string::*;

verus! {

/// Name of an argument: its short form, its long form, or both.
///
/// Two names are equal when they agree on a form that both of them have, so
/// `-h` and `--help` each equal `-h, --help` without being equal to one
/// another.
#[derive(Eq, Debug)]
pub enum ArgName {
    /// A short argument, entered as a dash and one character (`-h`).
    /// The dash is not part of the value.
    Short(char),
    /// A long argument, entered as two dashes and a word (`--help`).
    /// The dashes are not part of the value.
    Long(SmolStr),
    /// An argument that can be entered in either form.
    Both {
        /// Short form of the name.
        short: char,
        /// Long form of the name.
        long: SmolStr,
    },
}

/// What an [`ArgName`] stands for: the same three shapes over plain characters.
pub enum NameView {
    Short(char),
    Long(Seq<char>),
    Both { short: char, long: Seq<char> },
}

impl NameView {
    /// The short character of the name, if it has one.
    pub open spec fn short(self) -> Option<char> {
        match self {
            NameView::Short(c) => Some(c),
            NameView::Long(_) => None,
            NameView::Both { short, .. } => Some(short),
        }
    }

    /// The long word of the name, if it has one.
    pub open spec fn long(self) -> Option<Seq<char>> {
        match self {
            NameView::Short(_) => None,
            NameView::Long(l) => Some(l),
            NameView::Both { long, .. } => Some(long),
        }
    }

    /// The name as it is entered on the command line: `-s`, `--long` or `-s, --long`.
    pub open spec fn text(self) -> Seq<char> {
        match self {
            NameView::Short(c) => seq!['-', c],
            NameView::Long(l) => seq!['-', '-'] + l,
            NameView::Both { short, long } => seq!['-', short, ',', ' ', '-', '-'] + long,
        }
    }
}

/// Two names are the same when they share a short character or a long word.
pub open spec fn names_match(a: NameView, b: NameView) -> bool {
    ||| a.short() is Some && a.short() == b.short()
    ||| a.long() is Some && a.long() == b.long()
}

impl View for ArgName {
    type V = NameView;

    open spec fn view(&self) -> NameView {
        match *self {
            ArgName::Short(c) => NameView::Short(c),
            ArgName::Long(l) => NameView::Long(smol_text(l)),
            ArgName::Both { short, long } => NameView::Both { short, long: smol_text(long) },
        }
    }
}

impl ArgName {
    /// A short name.
    pub fn short(name: char) -> (r: Self)
        ensures
            r@ == NameView::Short(name),
    {
        ArgName::Short(name)
    }

    /// A long name.
    pub fn long(name: &str) -> (r: Self)
        ensures
            r@ == NameView::Long(name@),
    {
        ArgName::Long(smol_from_str(name))
    }

    /// A long name taken from a static string, which is not copied.
    pub fn long_static(name: &'static str) -> (r: Self)
        ensures
            r@ == NameView::Long(name@),
    {
        ArgName::Long(smol_from_static(name))
    }

    /// A name with a short and a long form.
    pub fn both(short: char, long: &str) -> (r: Self)
        ensures
            r@ == (NameView::Both { short, long: long@ }),
    {
        ArgName::Both { short, long: smol_from_str(long) }
    }

    /// A name with a short and a long form, the long one taken from a static
    /// string, which is not copied.
    pub fn both_static(short: char, long: &'static str) -> (r: Self)
        ensures
            r@ == (NameView::Both { short, long: long@ }),
    {
        ArgName::Both { short, long: smol_from_static(long) }
    }

    /// The name as it is entered on the command line.
    pub fn to_string(&self) -> (r: String)
        ensures
            r@ == self@.text(),
    {
        let mut out = String::new();
        match self {
            ArgName::Short(c) => {
                push_char(&mut out, '-');
                push_char(&mut out, *c);
            },
            ArgName::Long(l) => {
                push_char(&mut out, '-');
                push_char(&mut out, '-');
                out.append(smol_as_str(l));
            },
            ArgName::Both { short, long } => {
                push_char(&mut out, '-');
                push_char(&mut out, *short);
                push_char(&mut out, ',');
                push_char(&mut out, ' ');
                push_char(&mut out, '-');
                push_char(&mut out, '-');
                out.append(smol_as_str(long));
            },
        }
        out
    }
}

impl PartialEq for ArgName {
    fn eq(&self, other: &Self) -> (r: bool) {
        match self {
            ArgName::Short(s) => match other {
                ArgName::Short(o) => *s == *o,
                ArgName::Long(_) => false,
                ArgName::Both { short, .. } => *s == *short,
            },
            ArgName::Long(s) => match other {
                ArgName::Short(_) => false,
                ArgName::Long(o) => smol_eq(s, o),
                ArgName::Both { long, .. } => smol_eq(s, long),
            },
            ArgName::Both { short, long } => match other {
                ArgName::Short(o) => *short == *o,
                ArgName::Long(o) => smol_eq(long, o),
                ArgName::Both { short: s, long: l } => *short == *s || smol_eq(long, l),
            },
        }
    }
}

impl PartialEqSpecImpl for ArgName {
    open spec fn obeys_eq_spec() -> bool {
        true
    }

    open spec fn eq_spec(&self, other: &Self) -> bool {
        names_match(self@, other@)
    }
}

impl Clone for ArgName {
    fn clone(&self) -> (r: Self)
        ensures
            r@ == self@,
    {
        match self {
            ArgName::Short(c) => ArgName::Short(*c),
            ArgName::Long(l) => ArgName::Long(l.clone()),
            ArgName::Both { short, long } => ArgName::Both { short: *short, long: long.clone() },
        }
    }
}

/// A short name equals every name that has the same short character,
/// whatever long word that name carries, and the other way round.
pub proof fn lemma_short_matches_both(c: char, long: Seq<char>)
    ensures
        names_match(NameView::Short(c), NameView::Both { short: c, long }),
        names_match(NameView::Both { short: c, long }, NameView::Short(c)),
{
}

/// A long name equals every name that has the same long word, whatever
/// short character that name carries, and the other way round.
pub proof fn lemma_long_matches_both(word: Seq<char>, short: char)
    ensures
        names_match(NameView::Long(word), NameView::Both { short, long: word }),
        names_match(NameView::Both { short, long: word }, NameView::Long(word)),
{
}

/// Every name equals itself, and equality does not depend on the side a name
/// stands on.
pub proof fn lemma_names_match_reflexive_symmetric(a: NameView, b: NameView)
    ensures
        names_match(a, a),
        names_match(a, b) == names_match(b, a),
{
}

/// A short name and a long name are never equal, although both may equal
/// one name that has the two forms.
pub proof fn lemma_short_never_matches_long(c: char, word: Seq<char>)
    ensures
        !names_match(NameView::Short(c), NameView::Long(word)),
        !names_match(NameView::Long(word), NameView::Short(c)),
{
}

} // verus!
