//! The Lox value domain.
//!
//! Functions, classes and instances are reference-shared: a value carries a
//! handle (an index) into the interpreter's arenas, and identity of two such
//! values is equality of handles. Numbers are double bit patterns.

use vstd::prelude::*;
use crate::number::eq_bits;
use crate::number::is_nan_bits;
use crate::number::lemma_eq_bits_reflexive;
use crate::text::str_eq;

verus! {

/// A Lox value: primitive, callable, class, or instance.
#[derive(Debug)]
pub enum LoxType {
    Number(u64),
    Boolean(bool),
    String(String),
    Callable(usize),
    Class(usize),
    Instance(usize),
    Nil,
}

/// Mathematical image of a `LoxType`.
#[verifier::ext_equal]
pub enum LoxTypeView {
    Number(u64),
    Boolean(bool),
    Str(Seq<char>),
    Callable(int),
    Class(int),
    Instance(int),
    Nil,
}

impl View for LoxType {
    type V = LoxTypeView;

    open spec fn view(&self) -> LoxTypeView {
        match self {
            LoxType::Number(b) => LoxTypeView::Number(*b),
            LoxType::Boolean(b) => LoxTypeView::Boolean(*b),
            LoxType::String(s) => LoxTypeView::Str(s@),
            LoxType::Callable(i) => LoxTypeView::Callable(*i as int),
            LoxType::Class(i) => LoxTypeView::Class(*i as int),
            LoxType::Instance(i) => LoxTypeView::Instance(*i as int),
            LoxType::Nil => LoxTypeView::Nil,
        }
    }
}

/// Truthiness: `false` and `nil` are falsey; everything else is truthy.
pub open spec fn truthy(v: LoxTypeView) -> bool {
    match v {
        LoxTypeView::Boolean(b) => b,
        LoxTypeView::Nil => false,
        _ => true,
    }
}

/// Lox equality: numbers by IEEE equality, strings by content, booleans by
/// value, `nil` equals `nil`, callables, classes and instances by identity;
/// every cross-kind comparison is false.
pub open spec fn lox_equal(a: LoxTypeView, b: LoxTypeView) -> bool {
    match (a, b) {
        (LoxTypeView::Number(x), LoxTypeView::Number(y)) => eq_bits(x, y),
        (LoxTypeView::Str(x), LoxTypeView::Str(y)) => x == y,
        (LoxTypeView::Boolean(x), LoxTypeView::Boolean(y)) => x == y,
        (LoxTypeView::Nil, LoxTypeView::Nil) => true,
        (LoxTypeView::Callable(x), LoxTypeView::Callable(y)) => x == y,
        (LoxTypeView::Class(x), LoxTypeView::Class(y)) => x == y,
        (LoxTypeView::Instance(x), LoxTypeView::Instance(y)) => x == y,
        _ => false,
    }
}

impl LoxType {
    pub fn is_truthy(&self) -> (r: bool)
        ensures
            r == truthy(self@),
    {
        match self {
            LoxType::Number(_) => true,
            LoxType::Boolean(b) => *b,
            LoxType::String(_) => true,
            LoxType::Nil => false,
            LoxType::Callable(_) => true,
            LoxType::Class(_) => true,
            LoxType::Instance(_) => true,
        }
    }

    /// Lox `==` of two values.
    pub fn equals(&self, other: &LoxType) -> (r: bool)
        ensures
            r == lox_equal(self@, other@),
    {
        match (self, other) {
            (LoxType::Number(x), LoxType::Number(y)) => crate::number::num_eq(*x, *y),
            (LoxType::String(x), LoxType::String(y)) => str_eq(x.as_str(), y.as_str()),
            (LoxType::Boolean(x), LoxType::Boolean(y)) => *x == *y,
            (LoxType::Nil, LoxType::Nil) => true,
            (LoxType::Callable(x), LoxType::Callable(y)) => *x == *y,
            (LoxType::Class(x), LoxType::Class(y)) => *x == *y,
            (LoxType::Instance(x), LoxType::Instance(y)) => *x == *y,
            _ => false,
        }
    }

    /// A copy of the value, equal to it.
    pub fn dup(&self) -> (r: LoxType)
        ensures
            r == *self,
    {
        match self {
            LoxType::Number(b) => LoxType::Number(*b),
            LoxType::Boolean(b) => LoxType::Boolean(*b),
            LoxType::String(s) => LoxType::String(s.clone()),
            LoxType::Callable(i) => LoxType::Callable(*i),
            LoxType::Class(i) => LoxType::Class(*i),
            LoxType::Instance(i) => LoxType::Instance(*i),
            LoxType::Nil => LoxType::Nil,
        }
    }
}

/// Lox equality is reflexive for numbers other than NaN, for strings, for
/// booleans and for `nil`, and holds of a callable, class or instance value
/// and itself (identity).
pub proof fn lemma_equality_reflexive(v: LoxTypeView)
    requires
        !(v matches LoxTypeView::Number(b) && is_nan_bits(b)),
    ensures
        lox_equal(v, v),
{
    match v {
        LoxTypeView::Number(b) => {
            lemma_eq_bits_reflexive(b);
        }
        _ => {}
    }
}

/// A NaN is not equal to itself: the restriction above is needed.
pub proof fn lemma_nan_not_reflexive(b: u64)
    requires
        is_nan_bits(b),
    ensures
        !lox_equal(LoxTypeView::Number(b), LoxTypeView::Number(b)),
{
}

} // verus!
