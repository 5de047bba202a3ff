//! Typed values: a raw word, classified once, becomes exactly one variant of
//! `SExp`, and each variant's type offers only what its kind of value can do.

use vstd::prelude::*;
use crate::heap::{
    address, car_of, cdr_of, equalp, extends, has_tag, is_list, is_pair, is_value, live, object_at,
    store_wf, Context, ObjectView, Store, Tag, MAX_OBJECTS,
};
use crate::probes::{
    bits_of, boolean_word, interned, message_of, name_of, sexp_c_string, sexp_car, sexp_cdr,
    sexp_cons, sexp_equalp, sexp_exception_message, sexp_exceptionp, sexp_flonum_value,
    sexp_flonump, sexp_intern, sexp_listp, sexp_make_env, sexp_make_exception, sexp_make_flonum,
    sexp_pairp, sexp_string_data, sexp_string_size, sexp_stringp, sexp_symbol_data,
    sexp_symbol_to_string, sexp_symbolp, text_of,
};
use crate::tree::{lemma_tree_extends, lemma_tree_is_list, lemma_tree_unfold, tree, Tree};
use crate::tags::{
    character_value, character_word, fits_fixnum, fixnum_value, fixnum_word, is_boolean,
    is_character, is_fixnum, is_isymbol, sexp_booleanp, sexp_charp, sexp_integerp, sexp_pointerp,
    sexp_make_character, sexp_make_fixnum, sexp_nullp, sexp_truep, sexp_unbox_character,
    sexp_unbox_fixnum, wrap_fixnum, SEXP_FALSE, SEXP_NULL, SEXP_TRUE, SEXP_VOID,
};

verus! {

/// The kinds of value. Every value is of exactly one.
#[derive(Clone, Copy, Debug, PartialEq, Eq, Structural)]
pub enum Kind {
    Boolean,
    Void,
    Character,
    Null,
    Integer,
    Pair,
    String,
    Rational,
    Symbol,
    Exception,
    Environment,
}

/// The kind of the word `x`, found by probing in a fixed order: boolean,
/// void, character, null, integer, pair, string, rational, symbol,
/// exception, environment. The first probe that answers yes decides; a word
/// that no probe accepts has no kind.
pub open spec fn kind_of(s: Store, x: u64) -> Option<Kind> {
    if is_boolean(x) {
        Some(Kind::Boolean)
    } else if x == SEXP_VOID {
        Some(Kind::Void)
    } else if is_character(x) {
        Some(Kind::Character)
    } else if x == SEXP_NULL {
        Some(Kind::Null)
    } else if is_fixnum(x) {
        Some(Kind::Integer)
    } else if has_tag(s, x, Tag::Pair) {
        Some(Kind::Pair)
    } else if has_tag(s, x, Tag::String) {
        Some(Kind::String)
    } else if has_tag(s, x, Tag::Flonum) {
        Some(Kind::Rational)
    } else if is_isymbol(x) || has_tag(s, x, Tag::Symbol) {
        Some(Kind::Symbol)
    } else if has_tag(s, x, Tag::Exception) {
        Some(Kind::Exception)
    } else if has_tag(s, x, Tag::Env) {
        Some(Kind::Environment)
    } else {
        None
    }
}

/// A word as the engine hands it out, not yet classified. The address of an
/// object means something only in the session whose store holds the object.
#[derive(Clone, Copy, Debug, PartialEq, Eq, Structural)]
pub struct RawSExp {
    pub sexp: u64,
}

impl RawSExp {
    pub fn new(sexp: u64) -> (raw: RawSExp)
        ensures
            raw.sexp == sexp,
    {
        RawSExp { sexp }
    }
}

/// A string of the store.
#[derive(Clone, Copy, Debug)]
pub struct String(RawSExp);

/// A truth value.
#[derive(Clone, Copy, Debug, PartialEq, Eq, Structural)]
pub struct Bool(RawSExp);

/// A character: one byte. Two characters are equal where their bytes are.
#[derive(Clone, Copy, Debug)]
pub struct Char(RawSExp);

/// A fixnum: an exact integer of 63 bits.
#[derive(Clone, Copy, Debug, PartialEq, Eq, Structural)]
pub struct Integer(RawSExp);

/// A flonum: an inexact number, held in the store as the bits of a double.
#[derive(Clone, Copy, Debug)]
pub struct Rational(RawSExp);

/// The empty list.
#[derive(Clone, Copy, Debug, PartialEq, Eq, Structural)]
pub struct Null(RawSExp);

/// The value of an expression that has none.
#[derive(Clone, Copy, Debug, PartialEq, Eq, Structural)]
pub struct Void(RawSExp);

/// An interned name.
#[derive(Clone, Copy, Debug)]
pub struct Symbol(RawSExp);

/// A pair of two values.
#[derive(Clone, Copy, Debug)]
pub struct Pair(RawSExp);

/// A failure of the evaluator, as a value that carries a message.
#[derive(Clone, Copy, Debug)]
pub struct Exception(RawSExp);

/// An environment of the evaluator.
#[derive(Clone, Copy, Debug)]
pub struct Env(RawSExp);

/// A value, as exactly one of its kinds.
#[derive(Clone, Copy, Debug)]
pub enum SExp {
    String(String),
    Bool(Bool),
    Char(Char),
    Integer(Integer),
    Rational(Rational),
    Null(Null),
    Symbol(Symbol),
    Pair(Pair),
    Exception(Exception),
    Void(Void),
    Env(Env),
}

impl Bool {
    pub closed spec fn word(&self) -> u64 {
        self.0.sexp
    }

    /// The invariant: the word is `#t` or `#f`.
    pub open spec fn wf(&self) -> bool {
        is_boolean(self.word())
    }

    pub open spec fn spec_value(&self) -> bool {
        self.word() != SEXP_FALSE
    }

    pub fn from(b: bool) -> (v: Bool)
        ensures
            v.wf(),
            v.spec_value() == b,
            v.word() == if b {
                SEXP_TRUE
            } else {
                SEXP_FALSE
            },
    {
        if b {
            Bool(RawSExp::new(SEXP_TRUE))
        } else {
            Bool(RawSExp::new(SEXP_FALSE))
        }
    }

    #[verifier::when_used_as_spec(spec_value)]
    pub fn value(&self) -> (b: bool)
        ensures
            b == self.spec_value(),
    {
        sexp_truep(self.0.sexp)
    }

    pub fn raw(&self) -> (raw: RawSExp)
        ensures
            raw.sexp == self.word(),
    {
        self.0
    }
}

impl PartialEq for Char {
    fn eq(&self, other: &Char) -> (same: bool) {
        sexp_unbox_character(self.0.sexp) == sexp_unbox_character(other.0.sexp)
    }
}

impl vstd::std_specs::cmp::PartialEqSpecImpl for Char {
    open spec fn obeys_eq_spec() -> bool {
        true
    }

    open spec fn eq_spec(&self, other: &Char) -> bool {
        self.spec_value() == other.spec_value()
    }
}

impl Char {
    pub closed spec fn word(&self) -> u64 {
        self.0.sexp
    }

    pub open spec fn wf(&self) -> bool {
        is_character(self.word())
    }

    pub open spec fn spec_value(&self) -> u8 {
        character_value(self.word()) as u8
    }

    pub fn from(c: u8) -> (v: Char)
        ensures
            v.wf(),
            v.spec_value() == c,
            v.word() == character_word(c),
    {
        Char(RawSExp::new(sexp_make_character(c)))
    }

    #[verifier::when_used_as_spec(spec_value)]
    pub fn value(&self) -> (c: u8)
        ensures
            c == self.spec_value(),
    {
        sexp_unbox_character(self.0.sexp)
    }

    pub fn raw(&self) -> (raw: RawSExp)
        ensures
            raw.sexp == self.word(),
    {
        self.0
    }
}

impl Integer {
    pub closed spec fn word(&self) -> u64 {
        self.0.sexp
    }

    pub open spec fn wf(&self) -> bool {
        is_fixnum(self.word())
    }

    pub open spec fn spec_value(&self) -> i64 {
        fixnum_value(self.word()) as i64
    }

    /// Boxes `i`. An `i` outside the fixnum range loses its top bit.
    pub fn from(i: i64) -> (v: Integer)
        ensures
            v.wf(),
            v.spec_value() == wrap_fixnum(i as int),
            fits_fixnum(i as int) ==> v.spec_value() == i && v.word() == fixnum_word(i as int),
    {
        Integer(RawSExp::new(sexp_make_fixnum(i)))
    }

    #[verifier::when_used_as_spec(spec_value)]
    pub fn value(&self) -> (i: i64)
        ensures
            i == self.spec_value(),
            i == fixnum_value(self.word()),
    {
        sexp_unbox_fixnum(self.0.sexp)
    }

    pub fn raw(&self) -> (raw: RawSExp)
        ensures
            raw.sexp == self.word(),
    {
        self.0
    }
}

impl Null {
    pub closed spec fn word(&self) -> u64 {
        self.0.sexp
    }

    pub open spec fn wf(&self) -> bool {
        self.word() == SEXP_NULL
    }

    pub fn new() -> (v: Null)
        ensures
            v.wf(),
    {
        Null(RawSExp::new(SEXP_NULL))
    }

    pub fn raw(&self) -> (raw: RawSExp)
        ensures
            raw.sexp == self.word(),
    {
        self.0
    }
}

impl Void {
    pub closed spec fn word(&self) -> u64 {
        self.0.sexp
    }

    pub open spec fn wf(&self) -> bool {
        self.word() == SEXP_VOID
    }

    pub fn new() -> (v: Void)
        ensures
            v.wf(),
    {
        Void(RawSExp::new(SEXP_VOID))
    }

    pub fn raw(&self) -> (raw: RawSExp)
        ensures
            raw.sexp == self.word(),
    {
        self.0
    }
}

impl String {
    pub closed spec fn word(&self) -> u64 {
        self.0.sexp
    }

    /// The invariant: the word leads to a string of the store.
    pub open spec fn wf(&self, s: Store) -> bool {
        has_tag(s, self.word(), Tag::String)
    }

    /// The characters of the string.
    pub open spec fn text(&self, s: Store) -> Seq<char> {
        text_of(s, self.word())
    }

    /// How many bytes the text takes in UTF-8.
    pub fn len(&self, ctx: &Context) -> (n: usize)
        requires
            self.wf(ctx@),
        ensures
            n == vstd::utf8::encode_utf8(self.text(ctx@)).len(),
    {
        sexp_string_size(ctx, self.0.sexp)
    }

    pub fn data<'a>(&self, ctx: &'a Context) -> (text: &'a str)
        requires
            self.wf(ctx@),
        ensures
            text@ == self.text(ctx@),
    {
        sexp_string_data(ctx, self.0.sexp)
    }

    /// The text as an owned string.
    pub fn to_string(&self, ctx: &Context) -> (text: std::string::String)
        requires
            self.wf(ctx@),
        ensures
            text@ == self.text(ctx@),
    {
        self.data(ctx).to_owned()
    }

    pub fn raw(&self) -> (raw: RawSExp)
        ensures
            raw.sexp == self.word(),
    {
        self.0
    }
}

impl Rational {
    pub closed spec fn word(&self) -> u64 {
        self.0.sexp
    }

    pub open spec fn wf(&self, s: Store) -> bool {
        has_tag(s, self.word(), Tag::Flonum)
    }

    /// The IEEE-754 bits of the number.
    pub open spec fn bits(&self, s: Store) -> u64 {
        bits_of(s, self.word())
    }

    pub fn value(&self, ctx: &Context) -> (bits: u64)
        requires
            self.wf(ctx@),
        ensures
            bits == self.bits(ctx@),
    {
        sexp_flonum_value(ctx, self.0.sexp)
    }

    pub fn raw(&self) -> (raw: RawSExp)
        ensures
            raw.sexp == self.word(),
    {
        self.0
    }
}

impl Symbol {
    pub closed spec fn word(&self) -> u64 {
        self.0.sexp
    }

    pub open spec fn wf(&self, s: Store) -> bool {
        has_tag(s, self.word(), Tag::Symbol)
    }

    pub open spec fn name(&self, s: Store) -> Seq<char> {
        name_of(s, self.word())
    }

    pub fn data<'a>(&self, ctx: &'a Context) -> (name: &'a str)
        requires
            self.wf(ctx@),
        ensures
            name@ == self.name(ctx@),
    {
        sexp_symbol_data(ctx, self.0.sexp)
    }

    /// The name as an owned string.
    pub fn to_string(&self, ctx: &Context) -> (name: std::string::String)
        requires
            self.wf(ctx@),
        ensures
            name@ == self.name(ctx@),
    {
        self.data(ctx).to_owned()
    }

    pub fn raw(&self) -> (raw: RawSExp)
        ensures
            raw.sexp == self.word(),
    {
        self.0
    }
}

impl Pair {
    pub closed spec fn word(&self) -> u64 {
        self.0.sexp
    }

    pub open spec fn wf(&self, s: Store) -> bool {
        is_pair(s, self.word())
    }

    pub fn car(&self, ctx: &Context) -> (v: SExp)
        requires
            self.wf(ctx@),
        ensures
            v.wf(ctx@),
            v.word() == car_of(ctx@, self.word()),
            self.tree(ctx@) is Pair,
            v.tree(ctx@) == *self.tree(ctx@)->Pair_0,
    {
        proof {
            use_type_invariant(ctx);
        }
        SExp::from(ctx, RawSExp::new(sexp_car(ctx, self.0.sexp)))
    }

    pub fn cdr(&self, ctx: &Context) -> (v: SExp)
        requires
            self.wf(ctx@),
        ensures
            v.wf(ctx@),
            v.word() == cdr_of(ctx@, self.word()),
            self.tree(ctx@) is Pair,
            v.tree(ctx@) == *self.tree(ctx@)->Pair_1,
    {
        proof {
            use_type_invariant(ctx);
        }
        SExp::from(ctx, RawSExp::new(sexp_cdr(ctx, self.0.sexp)))
    }

    /// Whether the pair starts a proper list.
    pub fn is_list(&self, ctx: &Context) -> (b: bool)
        ensures
            b == is_list(ctx@, self.word()),
            b == self.tree(ctx@).is_list(),
    {
        proof {
            use_type_invariant(ctx);
            lemma_tree_is_list(ctx@, self.word());
        }
        sexp_truep(sexp_listp(ctx, self.0.sexp))
    }

    pub fn raw(&self) -> (raw: RawSExp)
        ensures
            raw.sexp == self.word(),
    {
        self.0
    }
}

impl Exception {
    pub closed spec fn word(&self) -> u64 {
        self.0.sexp
    }

    pub open spec fn wf(&self, s: Store) -> bool {
        has_tag(s, self.word(), Tag::Exception)
    }

    /// The value that the exception carries, most often a string.
    pub fn message(&self, ctx: &Context) -> (v: SExp)
        requires
            self.wf(ctx@),
        ensures
            v.wf(ctx@),
            v.word() == message_of(ctx@, self.word()),
            self.tree(ctx@) is Exception,
            v.tree(ctx@) == *self.tree(ctx@)->Exception_0,
    {
        proof {
            use_type_invariant(ctx);
        }
        SExp::from(ctx, RawSExp::new(sexp_exception_message(ctx, self.0.sexp)))
    }

    pub fn raw(&self) -> (raw: RawSExp)
        ensures
            raw.sexp == self.word(),
    {
        self.0
    }
}

impl Env {
    pub closed spec fn word(&self) -> u64 {
        self.0.sexp
    }

    pub open spec fn wf(&self, s: Store) -> bool {
        has_tag(s, self.word(), Tag::Env)
    }

    pub fn raw(&self) -> (raw: RawSExp)
        ensures
            raw.sexp == self.word(),
    {
        self.0
    }
}

impl SExp {
    /// The word of the value.
    pub open spec fn word(&self) -> u64 {
        match *self {
            SExp::String(v) => v.word(),
            SExp::Bool(v) => v.word(),
            SExp::Char(v) => v.word(),
            SExp::Integer(v) => v.word(),
            SExp::Rational(v) => v.word(),
            SExp::Null(v) => v.word(),
            SExp::Symbol(v) => v.word(),
            SExp::Pair(v) => v.word(),
            SExp::Exception(v) => v.word(),
            SExp::Void(v) => v.word(),
            SExp::Env(v) => v.word(),
        }
    }

    /// The kind that the variant stands for.
    pub open spec fn kind(&self) -> Kind {
        match *self {
            SExp::String(_) => Kind::String,
            SExp::Bool(_) => Kind::Boolean,
            SExp::Char(_) => Kind::Character,
            SExp::Integer(_) => Kind::Integer,
            SExp::Rational(_) => Kind::Rational,
            SExp::Null(_) => Kind::Null,
            SExp::Symbol(_) => Kind::Symbol,
            SExp::Pair(_) => Kind::Pair,
            SExp::Exception(_) => Kind::Exception,
            SExp::Void(_) => Kind::Void,
            SExp::Env(_) => Kind::Environment,
        }
    }

    /// The invariant: the word is a value of the store, and the variant is
    /// the kind that the store gives it.
    pub open spec fn wf(&self, s: Store) -> bool {
        is_value(s, self.word()) && kind_of(s, self.word()) == Some(self.kind())
    }

    /// Classifies a raw word.
    pub fn from(ctx: &Context, raw: RawSExp) -> (v: SExp)
        requires
            is_value(ctx@, raw.sexp),
        ensures
            v.wf(ctx@),
            v.word() == raw.sexp,
            kind_of(ctx@, raw.sexp) == Some(v.kind()),
    {
        let x: u64 = raw.sexp;
        if sexp_booleanp(x) {
            SExp::Bool(Bool(raw))
        } else if x == SEXP_VOID {
            SExp::Void(Void(raw))
        } else if sexp_charp(x) {
            SExp::Char(Char(raw))
        } else if sexp_nullp(x) {
            SExp::Null(Null(raw))
        } else if sexp_integerp(x) {
            SExp::Integer(Integer(raw))
        } else if sexp_pairp(ctx, x) {
            SExp::Pair(Pair(raw))
        } else if sexp_stringp(ctx, x) {
            SExp::String(String(raw))
        } else if sexp_flonump(ctx, x) {
            SExp::Rational(Rational(raw))
        } else if sexp_symbolp(ctx, x) {
            SExp::Symbol(Symbol(raw))
        } else if sexp_exceptionp(ctx, x) {
            SExp::Exception(Exception(raw))
        } else {
            SExp::Env(Env(raw))
        }
    }

    /// The raw word under the value.
    pub fn raw(&self) -> (raw: RawSExp)
        ensures
            raw.sexp == self.word(),
    {
        match self {
            SExp::String(v) => v.raw(),
            SExp::Bool(v) => v.raw(),
            SExp::Char(v) => v.raw(),
            SExp::Integer(v) => v.raw(),
            SExp::Rational(v) => v.raw(),
            SExp::Null(v) => v.raw(),
            SExp::Symbol(v) => v.raw(),
            SExp::Pair(v) => v.raw(),
            SExp::Exception(v) => v.raw(),
            SExp::Void(v) => v.raw(),
            SExp::Env(v) => v.raw(),
        }
    }

    /// Whether the engine holds the two values equal.
    pub fn equalp(&self, ctx: &Context, other: &SExp) -> (b: bool)
        ensures
            b == equalp(ctx@, self.word(), other.word()),
    {
        sexp_truep(sexp_equalp(ctx, self.raw().sexp, other.raw().sexp))
    }
}

impl Context {
    /// Makes a pair of `a` and `b`, which must be values of this session.
    pub fn cons(&mut self, a: &SExp, b: &SExp) -> (p: Pair)
        requires
            old(self).spec_has_room(),
            a.wf(old(self)@),
            b.wf(old(self)@),
        ensures
            final(self).wf(),
            final(self)@ == old(self)@.push(ObjectView::Pair { car: a.word(), cdr: b.word() }),
            p.word() == address(old(self)@.len() as int),
            p.wf(final(self)@),
            p.tree(final(self)@) == Tree::Pair(
                Box::new(a.tree(old(self)@)),
                Box::new(b.tree(old(self)@)),
            ),
    {
        proof {
            use_type_invariant(&*self);
        }
        let ghost before = self@;
        let p = Pair(RawSExp::new(sexp_cons(self, a.raw().sexp, b.raw().sexp)));
        proof {
            lemma_tree_unfold(self@, p.word());
            lemma_tree_extends(before, self@, a.word());
            lemma_tree_extends(before, self@, b.word());
        }
        p
    }

    /// Makes a flonum from the IEEE-754 bits of a double.
    pub fn flonum(&mut self, bits: u64) -> (r: Rational)
        requires
            old(self).spec_has_room(),
        ensures
            final(self).wf(),
            final(self)@ == old(self)@.push(ObjectView::Flonum { bits }),
            r.word() == address(old(self)@.len() as int),
            r.wf(final(self)@),
            tree(final(self)@, r.word()) == Tree::Rational(bits),
    {
        Rational(RawSExp::new(sexp_make_flonum(self, bits)))
    }

    /// Makes a new string. Two calls give two strings, also for one text.
    pub fn string(&mut self, text: &str) -> (v: String)
        requires
            old(self).spec_has_room(),
        ensures
            final(self).wf(),
            final(self)@ == old(self)@.push(ObjectView::String { text: text@ }),
            v.word() == address(old(self)@.len() as int),
            v.wf(final(self)@),
            tree(final(self)@, v.word()) == Tree::String(text@),
    {
        String(RawSExp::new(sexp_c_string(self, text)))
    }

    /// The symbol with the name `name`. Two calls with one name give the
    /// same symbol.
    pub fn intern(&mut self, name: &str) -> (v: Symbol)
        requires
            old(self).spec_has_room() || interned(old(self)@, name@),
        ensures
            final(self).wf(),
            v.wf(final(self)@),
            v.name(final(self)@) == name@,
            tree(final(self)@, v.word()) == Tree::Symbol(name@),
            extends(final(self)@, old(self)@),
            interned(old(self)@, name@) ==> final(self)@ == old(self)@ && v.wf(old(self)@),
            !interned(old(self)@, name@) ==> final(self)@ == old(self)@.push(
                ObjectView::Symbol { name: name@ },
            ) && v.word() == address(old(self)@.len() as int),
    {
        Symbol(RawSExp::new(sexp_intern(self, name)))
    }

    /// Makes an exception that carries `message`.
    pub fn exception(&mut self, message: &SExp) -> (e: Exception)
        requires
            old(self).spec_has_room(),
            message.wf(old(self)@),
        ensures
            final(self).wf(),
            final(self)@ == old(self)@.push(ObjectView::Exception { message: message.word() }),
            e.word() == address(old(self)@.len() as int),
            e.wf(final(self)@),
            e.tree(final(self)@) == Tree::Exception(Box::new(message.tree(old(self)@))),
    {
        proof {
            use_type_invariant(&*self);
        }
        let ghost before = self@;
        let e = Exception(RawSExp::new(sexp_make_exception(self, message.raw().sexp)));
        proof {
            lemma_tree_unfold(self@, e.word());
            lemma_tree_extends(before, self@, message.word());
        }
        e
    }

    /// Makes an environment.
    pub fn environment(&mut self) -> (e: Env)
        requires
            old(self).spec_has_room(),
        ensures
            final(self).wf(),
            final(self)@ == old(self)@.push(ObjectView::Env),
            e.word() == address(old(self)@.len() as int),
            e.wf(final(self)@),
            tree(final(self)@, e.word()) == Tree::Environment,
    {
        Env(RawSExp::new(sexp_make_env(self)))
    }

    /// Makes a new string with the name of `symbol`.
    pub fn symbol_to_string(&mut self, symbol: &Symbol) -> (v: String)
        requires
            old(self).spec_has_room(),
            symbol.wf(old(self)@),
        ensures
            final(self).wf(),
            final(self)@ == old(self)@.push(
                ObjectView::String { text: symbol.name(old(self)@) },
            ),
            v.word() == address(old(self)@.len() as int),
            v.wf(final(self)@),
            tree(final(self)@, v.word()) == Tree::String(symbol.name(old(self)@)),
    {
        String(RawSExp::new(sexp_symbol_to_string(self, symbol.raw().sexp)))
    }

    /// Whether `raw` is a value of this session: an immediate that stands
    /// for a value, or the address of one of its objects.
    pub fn is_value(&self, raw: RawSExp) -> (b: bool)
        ensures
            b == is_value(self@, raw.sexp),
    {
        let x: u64 = raw.sexp;
        sexp_integerp(x) || sexp_charp(x) || sexp_booleanp(x) || x == SEXP_NULL || x == SEXP_VOID
            || (sexp_pointerp(x) && x >= 4 && x / 4 - 1 < self.len() as u64)
    }

    /// Whether `value` is a value of this session, and of the kind that its
    /// variant says.
    pub fn holds(&self, value: &SExp) -> (b: bool)
        ensures
            b == value.wf(self@),
    {
        let raw = value.raw();
        if !self.is_value(raw) {
            return false;
        }
        match (SExp::from(self, raw), value) {
            (SExp::String(_), SExp::String(_)) => true,
            (SExp::Bool(_), SExp::Bool(_)) => true,
            (SExp::Char(_), SExp::Char(_)) => true,
            (SExp::Integer(_), SExp::Integer(_)) => true,
            (SExp::Rational(_), SExp::Rational(_)) => true,
            (SExp::Null(_), SExp::Null(_)) => true,
            (SExp::Symbol(_), SExp::Symbol(_)) => true,
            (SExp::Pair(_), SExp::Pair(_)) => true,
            (SExp::Exception(_), SExp::Exception(_)) => true,
            (SExp::Void(_), SExp::Void(_)) => true,
            (SExp::Env(_), SExp::Env(_)) => true,
            _ => false,
        }
    }

    /// Whether `pair` starts a proper list.
    pub fn listp(&self, pair: &Pair) -> (b: bool)
        ensures
            b == is_list(self@, pair.word()),
            b == pair.tree(self@).is_list(),
    {
        pair.is_list(self)
    }

    /// Turns what the evaluator handed back into a result: an exception is
    /// the error, any other value the success.
    pub fn eval_result(&self, raw: RawSExp) -> (r: Result<SExp, Exception>)
        requires
            is_value(self@, raw.sexp),
        ensures
            has_tag(self@, raw.sexp, Tag::Exception) ==> r is Err && r->Err_0.word() == raw.sexp
                && r->Err_0.wf(self@),
            !has_tag(self@, raw.sexp, Tag::Exception) ==> r is Ok && r->Ok_0.word() == raw.sexp
                && r->Ok_0.wf(self@),
    {
        if sexp_exceptionp(self, raw.sexp) {
            Err(Exception(raw))
        } else {
            Ok(SExp::from(self, raw))
        }
    }

    /// Turns what loading the standard environment handed back into a
    /// result: an exception is the error, the environment the success.
    pub fn env_result(&self, raw: RawSExp) -> (r: Result<Env, Exception>)
        requires
            has_tag(self@, raw.sexp, Tag::Exception) || has_tag(self@, raw.sexp, Tag::Env),
        ensures
            has_tag(self@, raw.sexp, Tag::Exception) ==> r is Err && r->Err_0.word() == raw.sexp
                && r->Err_0.wf(self@),
            has_tag(self@, raw.sexp, Tag::Env) ==> r is Ok && r->Ok_0.word() == raw.sexp
                && r->Ok_0.wf(self@),
    {
        if sexp_exceptionp(self, raw.sexp) {
            Err(Exception(raw))
        } else {
            Ok(Env(raw))
        }
    }
}

/// A value of a store is a value of every store that extends it, and of the
/// same kind there.
pub proof fn lemma_extends_keeps_kind(s: Store, t: Store, x: u64)
    requires
        extends(t, s),
        is_value(s, x),
    ensures
        is_value(t, x),
        kind_of(t, x) == kind_of(s, x),
{
}

/// The word of a truth value classifies as a boolean, in every store.
pub proof fn lemma_boolean_classifies(s: Store, b: bool)
    ensures
        kind_of(s, boolean_word(b)) == Some(Kind::Boolean),
{
}

/// The word of a character classifies as a character, in every store.
pub proof fn lemma_character_classifies(s: Store, c: u8)
    ensures
        kind_of(s, character_word(c) as u64) == Some(Kind::Character),
{
}

/// The word of a fixnum classifies as an integer, in every store.
pub proof fn lemma_integer_classifies(s: Store, n: int)
    requires
        fits_fixnum(n),
    ensures
        kind_of(s, fixnum_word(n) as u64) == Some(Kind::Integer),
{
}

/// The words of the empty list and of the void value classify as null and
/// as void, in every store.
pub proof fn lemma_null_and_void_classify(s: Store)
    ensures
        kind_of(s, SEXP_NULL) == Some(Kind::Null),
        kind_of(s, SEXP_VOID) == Some(Kind::Void),
{
}

/// The kind that an object's tag stands for.
pub open spec fn kind_of_tag(t: Tag) -> Kind {
    match t {
        Tag::Pair => Kind::Pair,
        Tag::String => Kind::String,
        Tag::Flonum => Kind::Rational,
        Tag::Symbol => Kind::Symbol,
        Tag::Exception => Kind::Exception,
        Tag::Env => Kind::Environment,
    }
}

/// A newly made object classifies as the kind of its tag: a pair as a
/// pair, a string as a string, a flonum as a rational, a symbol as a symbol,
/// an exception as an exception, an environment as an environment.
pub proof fn lemma_new_object_classifies(s: Store, o: ObjectView)
    requires
        s.len() < MAX_OBJECTS,
    ensures
        live(s.push(o), address(s.len() as int) as u64),
        object_at(s.push(o), address(s.len() as int) as u64) == o,
        kind_of(s.push(o), address(s.len() as int) as u64) == Some(kind_of_tag(o.tag())),
{
}

/// Two strings are equal where their texts are, whether or not they are one
/// object.
pub proof fn lemma_strings_equal_by_text(s: Store, a: u64, b: u64)
    requires
        has_tag(s, a, Tag::String),
        has_tag(s, b, Tag::String),
    ensures
        equalp(s, a, b) == (text_of(s, a) == text_of(s, b)),
{
}

/// Two strings made one after the other from one text are two objects, and
/// the engine holds them equal.
pub proof fn lemma_equal_strings_differ(s: Store, text: Seq<char>)
    requires
        s.len() + 1 < MAX_OBJECTS,
    ensures
        ({
            let o = ObjectView::String { text };
            let t = s.push(o).push(o);
            let a = address(s.len() as int) as u64;
            let b = address(s.len() as int + 1) as u64;
            &&& a != b
            &&& has_tag(t, a, Tag::String)
            &&& has_tag(t, b, Tag::String)
            &&& equalp(t, a, b)
        }),
{
}

/// In a well-formed store two symbols with one name are one symbol.
pub proof fn lemma_equal_symbols_same(s: Store, a: u64, b: u64)
    requires
        store_wf(s),
        has_tag(s, a, Tag::Symbol),
        has_tag(s, b, Tag::Symbol),
        name_of(s, a) == name_of(s, b),
    ensures
        a == b,
        equalp(s, a, b),
{
}

} // verus!
