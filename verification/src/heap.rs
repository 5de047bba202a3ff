//! The object store of a session, and the probes that read it.
//!
//! A pointer word is the address of an object: the object in slot `i` has the
//! address `4 * (i + 1)`. Objects are never moved or freed while the session
//! lives, and an object only refers to values that were there before it, so
//! the store holds no cycle.

use vstd::prelude::*;
use crate::tags::{
    is_boolean, is_character, is_fixnum, is_pointer, SEXP_NULL, SEXP_VOID,
};

verus! {

/// What kind of object a pointer leads to.
#[derive(Clone, Copy, Debug, PartialEq, Eq, Structural)]
pub enum Tag {
    Pair,
    String,
    Flonum,
    Symbol,
    Exception,
    Env,
}

/// An object of the store.
pub enum Object {
    Pair { car: u64, cdr: u64 },
    String { text: std::string::String },
    /// A double, held as its IEEE-754 bits.
    Flonum { bits: u64 },
    Symbol { name: std::string::String },
    Exception { message: u64 },
    Env,
}

/// The mathematical content of an object.
pub ghost enum ObjectView {
    Pair { car: u64, cdr: u64 },
    String { text: Seq<char> },
    Flonum { bits: u64 },
    Symbol { name: Seq<char> },
    Exception { message: u64 },
    Env,
}

impl View for Object {
    type V = ObjectView;

    open spec fn view(&self) -> ObjectView {
        match *self {
            Object::Pair { car, cdr } => ObjectView::Pair { car, cdr },
            Object::String { text } => ObjectView::String { text: text@ },
            Object::Flonum { bits } => ObjectView::Flonum { bits },
            Object::Symbol { name } => ObjectView::Symbol { name: name@ },
            Object::Exception { message } => ObjectView::Exception { message },
            Object::Env => ObjectView::Env,
        }
    }
}

impl ObjectView {
    pub open spec fn tag(self) -> Tag {
        match self {
            ObjectView::Pair { .. } => Tag::Pair,
            ObjectView::String { .. } => Tag::String,
            ObjectView::Flonum { .. } => Tag::Flonum,
            ObjectView::Symbol { .. } => Tag::Symbol,
            ObjectView::Exception { .. } => Tag::Exception,
            ObjectView::Env => Tag::Env,
        }
    }
}

/// A store, as contracts see it: the objects in the order of their creation.
pub type Store = Seq<ObjectView>;

/// The most objects a store can hold. The address of each fits a word, also
/// where a word has 32 bits.
pub const MAX_OBJECTS: usize = 0x3fff_ffff;

/// The address of the object in slot `i`.
pub open spec fn address(i: int) -> int {
    4 * (i + 1)
}

/// The slot that the pointer `x` leads to.
pub open spec fn slot(x: u64) -> int {
    x as int / 4 - 1
}

/// Whether `x` is the address of an object of `s`.
pub open spec fn live(s: Store, x: u64) -> bool {
    is_pointer(x) && 0 <= slot(x) < s.len()
}

/// Whether `x` is an immediate that stands for a value: a fixnum, a
/// character, a boolean, the empty list or the void value. An immediate
/// symbol is none: the store holds every symbol as an object.
pub open spec fn is_immediate_value(x: u64) -> bool {
    is_fixnum(x) || is_character(x) || is_boolean(x) || x == SEXP_NULL || x == SEXP_VOID
}

/// Whether `x` is a value of the session with store `s`.
pub open spec fn is_value(s: Store, x: u64) -> bool {
    is_immediate_value(x) || live(s, x)
}

/// How deep in the store `x` lies: 0 for an immediate, the slot plus one
/// for a pointer.
pub open spec fn rank(x: u64) -> nat {
    if is_pointer(x) && x >= 4 {
        (slot(x) + 1) as nat
    } else {
        0
    }
}

/// Whether `x` is an immediate value or leads to one of the first `i`
/// objects.
pub open spec fn value_below(x: u64, i: int) -> bool {
    is_immediate_value(x) || (is_pointer(x) && 0 <= slot(x) < i)
}

/// Whether the object `o` refers only to values that lie below slot `i`.
pub open spec fn refs_below(o: ObjectView, i: int) -> bool {
    match o {
        ObjectView::Pair { car, cdr } => value_below(car, i) && value_below(cdr, i),
        ObjectView::Exception { message } => value_below(message, i),
        _ => true,
    }
}

/// The invariant of a store: it is small enough for its addresses, every
/// object refers only to older values, and no name is interned twice.
pub open spec fn store_wf(s: Store) -> bool {
    &&& s.len() <= MAX_OBJECTS
    &&& forall|i: int| 0 <= i < s.len() ==> refs_below(#[trigger] s[i], i)
    &&& forall|i: int, j: int|
        0 <= i < j < s.len() && (#[trigger] s[i]) is Symbol && (#[trigger] s[j]) is Symbol
            ==> s[i]->name != s[j]->name
}

/// The object that the live pointer `x` leads to.
pub open spec fn object_at(s: Store, x: u64) -> ObjectView {
    s[slot(x)]
}

/// Whether `x` leads to an object with the tag `t`.
pub open spec fn has_tag(s: Store, x: u64, t: Tag) -> bool {
    live(s, x) && object_at(s, x).tag() == t
}

/// Whether `x` leads to a pair.
pub open spec fn is_pair(s: Store, x: u64) -> bool {
    has_tag(s, x, Tag::Pair)
}

/// The first part of the pair at `x`.
pub open spec fn car_of(s: Store, x: u64) -> u64 {
    object_at(s, x)->car
}

/// The second part of the pair at `x`.
pub open spec fn cdr_of(s: Store, x: u64) -> u64 {
    object_at(s, x)->cdr
}

/// Whether `x` is a proper list: the empty list, or a pair whose tail is a
/// proper list.
pub open spec fn is_list(s: Store, x: u64) -> bool
    decreases rank(x),
{
    if x == SEXP_NULL {
        true
    } else if is_pair(s, x) && rank(cdr_of(s, x)) < rank(x) {
        is_list(s, cdr_of(s, x))
    } else {
        false
    }
}

/// Structural equality, as the engine's `equal?` judges it: the same word,
/// or two pairs with equal parts, two strings with the same text, two flonums
/// with the same bits, or two exceptions with equal messages. Symbols are
/// interned, so two symbols are equal only as the same word.
pub open spec fn equalp(s: Store, a: u64, b: u64) -> bool
    decreases rank(a),
{
    if a == b {
        true
    } else if live(s, a) && live(s, b) {
        match (object_at(s, a), object_at(s, b)) {
            (ObjectView::Pair { car: a1, cdr: a2 }, ObjectView::Pair { car: b1, cdr: b2 }) => {
                rank(a1) < rank(a) && rank(a2) < rank(a) && equalp(s, a1, b1) && equalp(
                    s,
                    a2,
                    b2,
                )
            },
            (ObjectView::String { text: t }, ObjectView::String { text: u }) => t == u,
            (ObjectView::Flonum { bits: x }, ObjectView::Flonum { bits: y }) => x == y,
            (ObjectView::Exception { message: m }, ObjectView::Exception { message: n }) => {
                rank(m) < rank(a) && equalp(s, m, n)
            },
            _ => false,
        }
    } else {
        false
    }
}

/// Whether the store `t` holds everything that `s` holds, in the same slots.
pub open spec fn extends(t: Store, s: Store) -> bool {
    s.len() <= t.len() && forall|i: int| 0 <= i < s.len() ==> t[i] == s[i]
}

/// In a well-formed store a value that an object refers to lies deeper than
/// the object itself.
pub proof fn lemma_parts_rank(s: Store, x: u64)
    requires
        store_wf(s),
        live(s, x),
    ensures
        match object_at(s, x) {
            ObjectView::Pair { car, cdr } => {
                &&& is_value(s, car)
                &&& is_value(s, cdr)
                &&& rank(car) < rank(x)
                &&& rank(cdr) < rank(x)
            },
            ObjectView::Exception { message } => is_value(s, message) && rank(message) < rank(x),
            _ => true,
        },
{
}

/// The session: it owns the store, and every heap value lives in it.
pub struct Context {
    objects: Vec<Object>,
}

impl View for Context {
    type V = Store;

    closed spec fn view(&self) -> Store {
        Seq::new(self.objects@.len(), |i: int| self.objects@[i]@)
    }
}

impl Context {
    /// The invariant of a session, which every session meets.
    #[verifier::type_invariant]
    pub open spec fn wf(&self) -> bool {
        store_wf(self@)
    }

    /// Whether one more object fits.
    pub open spec fn spec_has_room(&self) -> bool {
        self@.len() < MAX_OBJECTS
    }

    /// A session with an empty store.
    pub fn new() -> (ctx: Context)
        ensures
            ctx.wf(),
            ctx@ == Seq::<ObjectView>::empty(),
    {
        Context { objects: Vec::new() }
    }

    /// How many objects the store holds.
    pub fn len(&self) -> (n: usize)
        ensures
            n == self@.len(),
    {
        self.objects.len()
    }

    #[verifier::when_used_as_spec(spec_has_room)]
    pub fn has_room(&self) -> (b: bool)
        ensures
            b == self.spec_has_room(),
    {
        self.objects.len() < MAX_OBJECTS
    }

    /// Adds `object` as the newest of the store and gives its address.
    pub(crate) fn allocate(&mut self, object: Object) -> (x: u64)
        requires
            old(self).spec_has_room(),
            refs_below(object@, old(self)@.len() as int),
            object@ is Symbol ==> forall|i: int|
                0 <= i < old(self)@.len() && (#[trigger] old(self)@[i]) is Symbol ==> old(
                    self,
                )@[i]->name != object@->name,
        ensures
            final(self).wf(),
            final(self)@ == old(self)@.push(object@),
            x == address(old(self)@.len() as int),
            live(final(self)@, x),
            object_at(final(self)@, x) == object@,
    {
        proof {
            use_type_invariant(&*self);
        }
        let n: usize = self.objects.len();
        let ghost before = self@;
        let mut objects: Vec<Object> = Vec::new();
        core::mem::swap(&mut self.objects, &mut objects);
        objects.push(object);
        proof {
            let after = Seq::new(objects@.len(), |i: int| objects@[i]@);
            assert(store_wf(after)) by {
                assert forall|i: int| 0 <= i < after.len() implies refs_below(
                    #[trigger] after[i],
                    i,
                ) by {
                    if i < before.len() {
                        assert(after[i] == before[i]);
                    }
                }
                assert forall|i: int, j: int|
                    0 <= i < j < after.len() && (#[trigger] after[i]) is Symbol && (
                    #[trigger] after[j]) is Symbol implies after[i]->name != after[j]->name by {
                    assert(after[i] == before[i]);
                    if j < before.len() {
                        assert(after[j] == before[j]);
                    }
                }
            }
        }
        core::mem::swap(&mut self.objects, &mut objects);
        4 * (n as u64 + 1)
    }

    pub(crate) fn object(&self, x: u64) -> (o: &Object)
        requires
            live(self@, x),
        ensures
            o@ == object_at(self@, x),
    {
        let n: usize = self.objects.len();
        let i: u64 = x / 4 - 1;
        &self.objects[i as usize]
    }
}

impl Default for Context {
    fn default() -> (ctx: Context)
        ensures
            ctx.wf(),
            ctx@ == Seq::<ObjectView>::empty(),
    {
        Context::new()
    }
}

} // verus!
