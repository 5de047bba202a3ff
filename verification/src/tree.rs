//! What a value is, apart from the store that holds it: a finite tree.

use vstd::prelude::*;
use crate::heap::{
    car_of, cdr_of, extends, has_tag, is_list, is_pair, is_value, live, rank, store_wf, Store, Tag,
};
use crate::probes::{bits_of, message_of, name_of, text_of};
use crate::sexp::{kind_of, Exception, Kind, Pair, SExp};
use crate::tags::{character_value, fixnum_value, SEXP_FALSE};

verus! {

/// A value as a tree: what the contracts of printing and decoding speak of.
pub ghost enum Tree {
    Boolean(bool),
    Void,
    /// A character, as its byte.
    Character(u8),
    Null,
    Integer(int),
    Pair(Box<Tree>, Box<Tree>),
    String(Seq<char>),
    /// A flonum, as its IEEE-754 bits.
    Rational(u64),
    Symbol(Seq<char>),
    Exception(Box<Tree>),
    Environment,
    /// What a word stands for that is no value of the store.
    Unknown,
}

impl Tree {
    /// Whether the tree is a proper list: null, or a pair whose tail is a
    /// proper list.
    pub open spec fn is_list(self) -> bool
        decreases self,
    {
        match self {
            Tree::Null => true,
            Tree::Pair(_, tail) => tail.is_list(),
            _ => false,
        }
    }
}

/// The tree of the word `x` in the store `s`.
pub open spec fn tree(s: Store, x: u64) -> Tree
    decreases rank(x),
{
    match kind_of(s, x) {
        Some(Kind::Boolean) => Tree::Boolean(x != SEXP_FALSE),
        Some(Kind::Void) => Tree::Void,
        Some(Kind::Character) => Tree::Character(character_value(x) as u8),
        Some(Kind::Null) => Tree::Null,
        Some(Kind::Integer) => Tree::Integer(fixnum_value(x)),
        Some(Kind::Pair) => if rank(car_of(s, x)) < rank(x) && rank(cdr_of(s, x)) < rank(x) {
            Tree::Pair(Box::new(tree(s, car_of(s, x))), Box::new(tree(s, cdr_of(s, x))))
        } else {
            Tree::Unknown
        },
        Some(Kind::String) => Tree::String(text_of(s, x)),
        Some(Kind::Rational) => Tree::Rational(bits_of(s, x)),
        Some(Kind::Symbol) => if has_tag(s, x, Tag::Symbol) {
            Tree::Symbol(name_of(s, x))
        } else {
            Tree::Unknown
        },
        Some(Kind::Exception) => if rank(message_of(s, x)) < rank(x) {
            Tree::Exception(Box::new(tree(s, message_of(s, x))))
        } else {
            Tree::Unknown
        },
        Some(Kind::Environment) => Tree::Environment,
        None => Tree::Unknown,
    }
}

impl SExp {
    /// The tree of the value.
    pub open spec fn tree(&self, s: Store) -> Tree {
        tree(s, self.word())
    }
}

impl Pair {
    /// The tree of the pair.
    pub open spec fn tree(&self, s: Store) -> Tree {
        tree(s, self.word())
    }
}

impl Exception {
    /// The tree of the exception.
    pub open spec fn tree(&self, s: Store) -> Tree {
        tree(s, self.word())
    }
}

/// In a well-formed store the tree of a pair is the pair of the trees of
/// its parts, and the tree of an exception holds the tree of its message.
pub proof fn lemma_tree_unfold(s: Store, x: u64)
    requires
        store_wf(s),
        live(s, x),
    ensures
        is_pair(s, x) ==> tree(s, x) == Tree::Pair(
            Box::new(tree(s, car_of(s, x))),
            Box::new(tree(s, cdr_of(s, x))),
        ),
        has_tag(s, x, Tag::Exception) ==> tree(s, x) == Tree::Exception(
            Box::new(tree(s, message_of(s, x))),
        ),
{
}

/// The tree of a value tells its kind: each kind has its own shape of tree,
/// and no value of a well-formed store is unknown.
pub proof fn lemma_tree_kind(s: Store, x: u64)
    requires
        store_wf(s),
        is_value(s, x),
    ensures
        kind_of(s, x) == Some(Kind::Boolean) <==> tree(s, x) is Boolean,
        kind_of(s, x) == Some(Kind::Void) <==> tree(s, x) is Void,
        kind_of(s, x) == Some(Kind::Character) <==> tree(s, x) is Character,
        kind_of(s, x) == Some(Kind::Null) <==> tree(s, x) is Null,
        kind_of(s, x) == Some(Kind::Integer) <==> tree(s, x) is Integer,
        kind_of(s, x) == Some(Kind::Pair) <==> tree(s, x) is Pair,
        kind_of(s, x) == Some(Kind::String) <==> tree(s, x) is String,
        kind_of(s, x) == Some(Kind::Rational) <==> tree(s, x) is Rational,
        kind_of(s, x) == Some(Kind::Symbol) <==> tree(s, x) is Symbol,
        kind_of(s, x) == Some(Kind::Exception) <==> tree(s, x) is Exception,
        kind_of(s, x) == Some(Kind::Environment) <==> tree(s, x) is Environment,
        !(tree(s, x) is Unknown),
{
}

/// The store and the tree agree on what is a proper list.
pub proof fn lemma_tree_is_list(s: Store, x: u64)
    requires
        store_wf(s),
    ensures
        is_list(s, x) == tree(s, x).is_list(),
    decreases rank(x),
{
    if is_pair(s, x) {
        lemma_tree_is_list(s, cdr_of(s, x));
    }
}

/// A value keeps its tree when the store grows.
pub proof fn lemma_tree_extends(s: Store, t: Store, x: u64)
    requires
        store_wf(s),
        extends(t, s),
        is_value(s, x),
    ensures
        tree(t, x) == tree(s, x),
    decreases rank(x),
{
    if live(s, x) {
        if is_pair(s, x) {
            lemma_tree_extends(s, t, car_of(s, x));
            lemma_tree_extends(s, t, cdr_of(s, x));
        } else if has_tag(s, x, Tag::Exception) {
            lemma_tree_extends(s, t, message_of(s, x));
        }
    }
}

} // verus!
