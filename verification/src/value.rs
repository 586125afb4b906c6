//! The kinds of value an argument can carry.

use crate::number::{decimal_value, is_float_text, parse_decimal, FloatText};
use crate::text::{path_from_string, path_text};
use std::path::PathBuf;
use vstd::prelude::*;

verus! {

/// The kind of value an argument carries, together with the value itself.
///
/// When a command is declared the inner value is the default (`None` for no
/// default). Once the command line has been parsed it is the value that was
/// entered last, or still the default if the argument was not entered.
#[derive(Debug, PartialEq)]
pub enum ArgValue {
    /// Carries a string, taken as it was entered.
    String(Option<String>),
    /// Carries a decimal integer.
    Num(Option<i64>),
    /// Carries a floating-point literal.
    Float(Option<FloatText>),
    /// Carries a path. The path is never looked up on disk.
    Path(Option<PathBuf>),
    /// Flags carry no value: only how often they were entered counts.
    Flag,
}

/// What an [`ArgValue`] stands for, over plain characters and numbers.
pub enum ValueView {
    String(Option<Seq<char>>),
    Num(Option<i64>),
    Float(Option<Seq<char>>),
    Path(Option<Seq<char>>),
    Flag,
}

impl ValueView {
    /// Whether an argument of this kind is followed by a value on the command line.
    pub open spec fn takes_value(self) -> bool {
        !(self is Flag)
    }

    /// The value of the same kind that the token `text` denotes, if it denotes one.
    ///
    /// Strings and paths take any token. Integers and floating-point numbers
    /// take a token only if it is a well-formed number.
    pub open spec fn read(self, text: Seq<char>) -> Option<ValueView> {
        match self {
            ValueView::String(_) => Some(ValueView::String(Some(text))),
            ValueView::Num(_) => match decimal_value(text) {
                Some(n) => Some(ValueView::Num(Some(n))),
                None => None,
            },
            ValueView::Float(_) => if is_float_text(text) {
                Some(ValueView::Float(Some(text)))
            } else {
                None
            },
            ValueView::Path(_) => Some(ValueView::Path(Some(text))),
            ValueView::Flag => Some(ValueView::Flag),
        }
    }
}

impl View for ArgValue {
    type V = ValueView;

    open spec fn view(&self) -> ValueView {
        match *self {
            ArgValue::String(Some(s)) => ValueView::String(Some(s@)),
            ArgValue::String(None) => ValueView::String(None),
            ArgValue::Num(n) => ValueView::Num(n),
            ArgValue::Float(Some(t)) => ValueView::Float(Some(t@)),
            ArgValue::Float(None) => ValueView::Float(None),
            ArgValue::Path(Some(p)) => ValueView::Path(Some(path_text(p))),
            ArgValue::Path(None) => ValueView::Path(None),
            ArgValue::Flag => ValueView::Flag,
        }
    }
}

impl ArgValue {
    /// Whether an argument of this kind is followed by a value on the command line.
    pub fn takes_value(&self) -> (r: bool)
        ensures
            r == self@.takes_value(),
    {
        match self {
            ArgValue::Flag => false,
            _ => true,
        }
    }

    /// Reads the token `text` as a value of the same kind as `self`.
    ///
    /// Fails when `self` is numeric and `text` is not a number of that kind;
    /// the token is then handed back unchanged.
    pub fn read(&self, text: String) -> (r: Result<ArgValue, String>)
        ensures
            match self@.read(text@) {
                Some(v) => r matches Ok(value) && value@ == v,
                None => r matches Err(t) && t@ == text@,
            },
    {
        match self {
            ArgValue::String(_) => Ok(ArgValue::String(Some(text))),
            ArgValue::Num(_) => match parse_decimal(text.as_str()) {
                Some(n) => Ok(ArgValue::Num(Some(n))),
                None => Err(text),
            },
            ArgValue::Float(_) => match FloatText::new(text) {
                Ok(t) => Ok(ArgValue::Float(Some(t))),
                Err(text) => Err(text),
            },
            ArgValue::Path(_) => Ok(ArgValue::Path(Some(path_from_string(text)))),
            ArgValue::Flag => Ok(ArgValue::Flag),
        }
    }
}

impl Clone for ArgValue {
    fn clone(&self) -> (r: Self)
        ensures
            r@ == self@,
    {
        match self {
            ArgValue::String(Some(s)) => ArgValue::String(Some(s.clone())),
            ArgValue::String(None) => ArgValue::String(None),
            ArgValue::Num(n) => ArgValue::Num(*n),
            ArgValue::Float(Some(t)) => ArgValue::Float(Some(t.clone())),
            ArgValue::Float(None) => ArgValue::Float(None),
            ArgValue::Path(Some(p)) => ArgValue::Path(Some(p.clone())),
            ArgValue::Path(None) => ArgValue::Path(None),
            ArgValue::Flag => ArgValue::Flag,
        }
    }
}

} // verus!
