//! The engine's operations on words: probes of an object's tag, readers of
//! its parts, and the constructors that put a new object into the store.

use vstd::prelude::*;
use crate::heap::{
    address, car_of, cdr_of, equalp, has_tag, is_list, is_pair, is_value, live, object_at, rank,
    Context, Object, ObjectView, Store, Tag,
};
use crate::tags::{
    is_fixnum, is_isymbol, sexp_integerp, sexp_isymbolp, sexp_pointerp, SEXP_FALSE, SEXP_NULL,
    SEXP_TRUE,
};

verus! {

pub open spec fn text_of(s: Store, x: u64) -> Seq<char> {
    object_at(s, x)->text
}

pub open spec fn name_of(s: Store, x: u64) -> Seq<char> {
    object_at(s, x)->name
}

pub open spec fn bits_of(s: Store, x: u64) -> u64 {
    object_at(s, x)->bits
}

pub open spec fn message_of(s: Store, x: u64) -> u64 {
    object_at(s, x)->message
}

/// Whether some symbol of `s` has the name `name`.
pub open spec fn interned(s: Store, name: Seq<char>) -> bool {
    exists|i: int| 0 <= i < s.len() && #[trigger] s[i] == (ObjectView::Symbol { name })
}

/// The word for a truth value.
pub open spec fn boolean_word(b: bool) -> u64 {
    if b {
        SEXP_TRUE
    } else {
        SEXP_FALSE
    }
}

/// The tag of the object that `x` leads to.
pub fn sexp_pointer_tag(ctx: &Context, x: u64) -> (t: Tag)
    requires
        live(ctx@, x),
    ensures
        t == object_at(ctx@, x).tag(),
{
    match ctx.object(x) {
        Object::Pair { .. } => Tag::Pair,
        Object::String { .. } => Tag::String,
        Object::Flonum { .. } => Tag::Flonum,
        Object::Symbol { .. } => Tag::Symbol,
        Object::Exception { .. } => Tag::Exception,
        Object::Env => Tag::Env,
    }
}

/// Whether `x` leads to an object with the tag `t`. A word that is no
/// address of the store has no tag.
pub fn sexp_check_tag(ctx: &Context, x: u64, t: Tag) -> (b: bool)
    ensures
        b == has_tag(ctx@, x, t),
{
    sexp_pointerp(x) && x >= 4 && x / 4 - 1 < ctx.len() as u64 && sexp_pointer_tag(ctx, x) == t
}

pub fn sexp_pairp(ctx: &Context, x: u64) -> (b: bool)
    ensures
        b == is_pair(ctx@, x),
{
    sexp_check_tag(ctx, x, Tag::Pair)
}

pub fn sexp_stringp(ctx: &Context, x: u64) -> (b: bool)
    ensures
        b == has_tag(ctx@, x, Tag::String),
{
    sexp_check_tag(ctx, x, Tag::String)
}

pub fn sexp_flonump(ctx: &Context, x: u64) -> (b: bool)
    ensures
        b == has_tag(ctx@, x, Tag::Flonum),
{
    sexp_check_tag(ctx, x, Tag::Flonum)
}

pub fn sexp_lsymbolp(ctx: &Context, x: u64) -> (b: bool)
    ensures
        b == has_tag(ctx@, x, Tag::Symbol),
{
    sexp_check_tag(ctx, x, Tag::Symbol)
}

pub fn sexp_symbolp(ctx: &Context, x: u64) -> (b: bool)
    ensures
        b == (is_isymbol(x) || has_tag(ctx@, x, Tag::Symbol)),
{
    sexp_isymbolp(x) || sexp_lsymbolp(ctx, x)
}

pub fn sexp_exceptionp(ctx: &Context, x: u64) -> (b: bool)
    ensures
        b == has_tag(ctx@, x, Tag::Exception),
{
    sexp_check_tag(ctx, x, Tag::Exception)
}

pub fn sexp_envp(ctx: &Context, x: u64) -> (b: bool)
    ensures
        b == has_tag(ctx@, x, Tag::Env),
{
    sexp_check_tag(ctx, x, Tag::Env)
}

pub fn sexp_realp(ctx: &Context, x: u64) -> (b: bool)
    ensures
        b == (is_fixnum(x) || has_tag(ctx@, x, Tag::Flonum)),
{
    sexp_integerp(x) || sexp_flonump(ctx, x)
}

pub fn sexp_car(ctx: &Context, x: u64) -> (car: u64)
    requires
        is_pair(ctx@, x),
    ensures
        car == car_of(ctx@, x),
{
    match ctx.object(x) {
        Object::Pair { car, .. } => *car,
        _ => 0,
    }
}

pub fn sexp_cdr(ctx: &Context, x: u64) -> (cdr: u64)
    requires
        is_pair(ctx@, x),
    ensures
        cdr == cdr_of(ctx@, x),
{
    match ctx.object(x) {
        Object::Pair { cdr, .. } => *cdr,
        _ => 0,
    }
}

/// The IEEE-754 bits of the flonum `x`.
pub fn sexp_flonum_value(ctx: &Context, x: u64) -> (bits: u64)
    requires
        has_tag(ctx@, x, Tag::Flonum),
    ensures
        bits == bits_of(ctx@, x),
{
    match ctx.object(x) {
        Object::Flonum { bits } => *bits,
        _ => 0,
    }
}

pub fn sexp_exception_message(ctx: &Context, x: u64) -> (message: u64)
    requires
        has_tag(ctx@, x, Tag::Exception),
    ensures
        message == message_of(ctx@, x),
{
    match ctx.object(x) {
        Object::Exception { message } => *message,
        _ => 0,
    }
}

/// The text of the string `x`.
pub fn sexp_string_data(ctx: &Context, x: u64) -> (text: &str)
    requires
        has_tag(ctx@, x, Tag::String),
    ensures
        text@ == text_of(ctx@, x),
{
    match ctx.object(x) {
        Object::String { text } => text.as_str(),
        _ => "",
    }
}

/// The name of the symbol `x`.
pub fn sexp_symbol_data(ctx: &Context, x: u64) -> (name: &str)
    requires
        has_tag(ctx@, x, Tag::Symbol),
    ensures
        name@ == name_of(ctx@, x),
{
    match ctx.object(x) {
        Object::Symbol { name } => name.as_str(),
        _ => "",
    }
}

/// How many bytes the text of the string `x` takes in UTF-8.
pub fn sexp_string_size(ctx: &Context, x: u64) -> (n: usize)
    requires
        has_tag(ctx@, x, Tag::String),
    ensures
        n == vstd::utf8::encode_utf8(text_of(ctx@, x)).len(),
{
    let text = sexp_string_data(ctx, x);
    text.as_bytes().len()
}

pub fn sexp_string_length(ctx: &Context, x: u64) -> (n: usize)
    requires
        has_tag(ctx@, x, Tag::String),
    ensures
        n == vstd::utf8::encode_utf8(text_of(ctx@, x)).len(),
{
    sexp_string_size(ctx, x)
}

/// Makes a pair of `a` and `b`.
pub fn sexp_cons(ctx: &mut Context, a: u64, b: u64) -> (x: u64)
    requires
        old(ctx).spec_has_room(),
        is_value(old(ctx)@, a),
        is_value(old(ctx)@, b),
    ensures
        final(ctx).wf(),
        final(ctx)@ == old(ctx)@.push(ObjectView::Pair { car: a, cdr: b }),
        x == address(old(ctx)@.len() as int),
{
    ctx.allocate(Object::Pair { car: a, cdr: b })
}

/// Makes a flonum with the IEEE-754 bits `bits`.
pub fn sexp_make_flonum(ctx: &mut Context, bits: u64) -> (x: u64)
    requires
        old(ctx).spec_has_room(),
    ensures
        final(ctx).wf(),
        final(ctx)@ == old(ctx)@.push(ObjectView::Flonum { bits }),
        x == address(old(ctx)@.len() as int),
{
    ctx.allocate(Object::Flonum { bits })
}

/// Makes a new string with the text `text`.
pub fn sexp_c_string(ctx: &mut Context, text: &str) -> (x: u64)
    requires
        old(ctx).spec_has_room(),
    ensures
        final(ctx).wf(),
        final(ctx)@ == old(ctx)@.push(ObjectView::String { text: text@ }),
        x == address(old(ctx)@.len() as int),
{
    ctx.allocate(Object::String { text: text.to_owned() })
}

/// Makes an exception that carries `message`.
pub fn sexp_make_exception(ctx: &mut Context, message: u64) -> (x: u64)
    requires
        old(ctx).spec_has_room(),
        is_value(old(ctx)@, message),
    ensures
        final(ctx).wf(),
        final(ctx)@ == old(ctx)@.push(ObjectView::Exception { message }),
        x == address(old(ctx)@.len() as int),
{
    ctx.allocate(Object::Exception { message })
}

/// Makes an environment.
pub fn sexp_make_env(ctx: &mut Context) -> (x: u64)
    requires
        old(ctx).spec_has_room(),
    ensures
        final(ctx).wf(),
        final(ctx)@ == old(ctx)@.push(ObjectView::Env),
        x == address(old(ctx)@.len() as int),
{
    ctx.allocate(Object::Env)
}

/// The symbol with the name `name`: the one that the store holds, or a new
/// one where it holds none.
pub fn sexp_intern(ctx: &mut Context, name: &str) -> (x: u64)
    requires
        old(ctx).spec_has_room() || interned(old(ctx)@, name@),
    ensures
        final(ctx).wf(),
        has_tag(final(ctx)@, x, Tag::Symbol),
        name_of(final(ctx)@, x) == name@,
        interned(old(ctx)@, name@) ==> final(ctx)@ == old(ctx)@ && live(old(ctx)@, x),
        !interned(old(ctx)@, name@) ==> final(ctx)@ == old(ctx)@.push(
            ObjectView::Symbol { name: name@ },
        ) && x == address(old(ctx)@.len() as int),
{
    proof {
        use_type_invariant(&*ctx);
    }
    let n: usize = ctx.len();
    let mut i: usize = 0;
    while i < n
        invariant
            n == ctx@.len(),
            *ctx == *old(ctx),
            ctx.wf(),
            i <= n,
            forall|j: int| 0 <= j < i ==> #[trigger] ctx@[j] != (ObjectView::Symbol { name: name@ }),
        decreases n - i,
    {
        let x: u64 = 4 * (i as u64 + 1);
        if sexp_lsymbolp(ctx, x) {
            let found = sexp_symbol_data(ctx, x);
            if str_eq(found, name) {
                return x;
            }
        }
        i = i + 1;
    }
    ctx.allocate(Object::Symbol { name: name.to_owned() })
}

/// Whether two texts hold the same characters.
pub(crate) fn str_eq(a: &str, b: &str) -> (same: bool)
    ensures
        same == (a@ == b@),
{
    let x = a.as_bytes();
    let y = b.as_bytes();
    proof {
        vstd::utf8::encode_utf8_decode_utf8(a@);
        vstd::utf8::encode_utf8_decode_utf8(b@);
    }
    if x.len() != y.len() {
        return false;
    }
    let n: usize = x.len();
    let mut i: usize = 0;
    while i < n
        invariant
            n == x@.len(),
            n == y@.len(),
            i <= n,
            x@ == vstd::utf8::encode_utf8(a@),
            y@ == vstd::utf8::encode_utf8(b@),
            forall|j: int| 0 <= j < i ==> x@[j] == y@[j],
        decreases n - i,
    {
        if x[i] != y[i] {
            return false;
        }
        i = i + 1;
    }
    assert(x@ =~= y@);
    true
}

/// Makes a new string with the name of the symbol `x`.
pub fn sexp_symbol_to_string(ctx: &mut Context, x: u64) -> (y: u64)
    requires
        old(ctx).spec_has_room(),
        has_tag(old(ctx)@, x, Tag::Symbol),
    ensures
        final(ctx).wf(),
        final(ctx)@ == old(ctx)@.push(ObjectView::String { text: name_of(old(ctx)@, x) }),
        y == address(old(ctx)@.len() as int),
{
    let name = sexp_symbol_data(ctx, x).to_owned();
    ctx.allocate(Object::String { text: name })
}

/// `#t` where `x` is a proper list, `#f` where it is not.
pub fn sexp_listp(ctx: &Context, x: u64) -> (r: u64)
    ensures
        r == boolean_word(is_list(ctx@, x)),
{
    proof {
        use_type_invariant(ctx);
    }
    let mut cur: u64 = x;
    while sexp_pairp(ctx, cur)
        invariant
            ctx.wf(),
            is_list(ctx@, x) == is_list(ctx@, cur),
        decreases rank(cur),
    {
        cur = sexp_cdr(ctx, cur);
    }
    if cur == SEXP_NULL {
        SEXP_TRUE
    } else {
        SEXP_FALSE
    }
}

/// `#t` where `a` and `b` are equal as `equalp` says, `#f` where they are
/// not.
pub fn sexp_equalp(ctx: &Context, a: u64, b: u64) -> (r: u64)
    ensures
        r == boolean_word(equalp(ctx@, a, b)),
{
    if words_equal(ctx, a, b) {
        SEXP_TRUE
    } else {
        SEXP_FALSE
    }
}

fn words_equal(ctx: &Context, a: u64, b: u64) -> (same: bool)
    ensures
        same == equalp(ctx@, a, b),
    decreases rank(a),
{
    proof {
        use_type_invariant(ctx);
    }
    if a == b {
        return true;
    }
    let n: u64 = ctx.len() as u64;
    if !(sexp_pointerp(a) && a >= 4 && a / 4 - 1 < n) {
        return false;
    }
    if !(sexp_pointerp(b) && b >= 4 && b / 4 - 1 < n) {
        return false;
    }
    match (ctx.object(a), ctx.object(b)) {
        (Object::Pair { car: a1, cdr: a2 }, Object::Pair { car: b1, cdr: b2 }) => {
            words_equal(ctx, *a1, *b1) && words_equal(ctx, *a2, *b2)
        },
        (Object::String { text: t }, Object::String { text: u }) => str_eq(
            t.as_str(),
            u.as_str(),
        ),
        (Object::Flonum { bits: x }, Object::Flonum { bits: y }) => *x == *y,
        (Object::Exception { message: m }, Object::Exception { message: k }) => words_equal(
            ctx,
            *m,
            *k,
        ),
        _ => false,
    }
}

} // verus!
