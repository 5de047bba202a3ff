//! Taking a value as one kind: `expect` gives the value as the type asked
//! for where it is of that kind, and nothing where it is of another.

use vstd::prelude::*;
use crate::sexp::{
    Bool, Char, Env, Exception, Integer, Kind, Null, Pair, Rational, SExp, String, Symbol, Void,
};

verus! {

/// A type that stands for one kind of value.
pub trait Variant: Sized {
    /// The kind that the type stands for.
    spec fn kind() -> Kind;

    /// The word under a value of the type.
    spec fn word_of(&self) -> u64;

    /// The value as this type, where it is of the type's kind.
    fn take(value: SExp) -> (r: Option<Self>)
        ensures
            r is Some <==> value.kind() == Self::kind(),
            r is Some ==> r->Some_0.word_of() == value.word(),
    ;
}

impl Variant for String {
    open spec fn kind() -> Kind {
        Kind::String
    }

    open spec fn word_of(&self) -> u64 {
        self.word()
    }

    fn take(value: SExp) -> (r: Option<String>) {
        match value {
            SExp::String(v) => Some(v),
            _ => None,
        }
    }
}

impl Variant for Bool {
    open spec fn kind() -> Kind {
        Kind::Boolean
    }

    open spec fn word_of(&self) -> u64 {
        self.word()
    }

    fn take(value: SExp) -> (r: Option<Bool>) {
        match value {
            SExp::Bool(v) => Some(v),
            _ => None,
        }
    }
}

impl Variant for Char {
    open spec fn kind() -> Kind {
        Kind::Character
    }

    open spec fn word_of(&self) -> u64 {
        self.word()
    }

    fn take(value: SExp) -> (r: Option<Char>) {
        match value {
            SExp::Char(v) => Some(v),
            _ => None,
        }
    }
}

impl Variant for Integer {
    open spec fn kind() -> Kind {
        Kind::Integer
    }

    open spec fn word_of(&self) -> u64 {
        self.word()
    }

    fn take(value: SExp) -> (r: Option<Integer>) {
        match value {
            SExp::Integer(v) => Some(v),
            _ => None,
        }
    }
}

impl Variant for Rational {
    open spec fn kind() -> Kind {
        Kind::Rational
    }

    open spec fn word_of(&self) -> u64 {
        self.word()
    }

    fn take(value: SExp) -> (r: Option<Rational>) {
        match value {
            SExp::Rational(v) => Some(v),
            _ => None,
        }
    }
}

impl Variant for Null {
    open spec fn kind() -> Kind {
        Kind::Null
    }

    open spec fn word_of(&self) -> u64 {
        self.word()
    }

    fn take(value: SExp) -> (r: Option<Null>) {
        match value {
            SExp::Null(v) => Some(v),
            _ => None,
        }
    }
}

impl Variant for Symbol {
    open spec fn kind() -> Kind {
        Kind::Symbol
    }

    open spec fn word_of(&self) -> u64 {
        self.word()
    }

    fn take(value: SExp) -> (r: Option<Symbol>) {
        match value {
            SExp::Symbol(v) => Some(v),
            _ => None,
        }
    }
}

impl Variant for Pair {
    open spec fn kind() -> Kind {
        Kind::Pair
    }

    open spec fn word_of(&self) -> u64 {
        self.word()
    }

    fn take(value: SExp) -> (r: Option<Pair>) {
        match value {
            SExp::Pair(v) => Some(v),
            _ => None,
        }
    }
}

impl Variant for Exception {
    open spec fn kind() -> Kind {
        Kind::Exception
    }

    open spec fn word_of(&self) -> u64 {
        self.word()
    }

    fn take(value: SExp) -> (r: Option<Exception>) {
        match value {
            SExp::Exception(v) => Some(v),
            _ => None,
        }
    }
}

impl Variant for Void {
    open spec fn kind() -> Kind {
        Kind::Void
    }

    open spec fn word_of(&self) -> u64 {
        self.word()
    }

    fn take(value: SExp) -> (r: Option<Void>) {
        match value {
            SExp::Void(v) => Some(v),
            _ => None,
        }
    }
}

impl Variant for Env {
    open spec fn kind() -> Kind {
        Kind::Environment
    }

    open spec fn word_of(&self) -> u64 {
        self.word()
    }

    fn take(value: SExp) -> (r: Option<Env>) {
        match value {
            SExp::Env(v) => Some(v),
            _ => None,
        }
    }
}

impl SExp {
    /// The value as the type `T`, where it is of the kind that `T` stands
    /// for.
    pub fn expect<T: Variant>(self) -> (r: Option<T>)
        ensures
            r is Some <==> self.kind() == T::kind(),
            r is Some ==> r->Some_0.word_of() == self.word(),
    {
        T::take(self)
    }
}

} // verus!
