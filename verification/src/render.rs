//! The printed form of a value.
//!
//! ```text
//!   boolean      #t  #f
//!   character    #\c
//!   integer      decimal digits, with a minus sign
//!   null         ()
//!   string       the text, quoted
//!   symbol       the name, quoted
//!   rational     the flonum itself, left for the caller to print
//!   exception    error: and the message
//!   pair         (a b c) where it starts a proper list, (a . b) else
//!   void, environment   nothing
//! ```

use vstd::prelude::*;
use crate::heap::{car_of, is_pair, is_value, rank, Context};
use crate::probes::{
    sexp_car, sexp_cdr, sexp_exception_message, sexp_exceptionp, sexp_flonum_value, sexp_flonump,
    sexp_listp, sexp_lsymbolp, sexp_pairp, sexp_string_data, sexp_stringp, sexp_symbol_data,
};
use crate::sexp::{Exception, Pair, SExp};
use crate::tags::{
    sexp_booleanp, sexp_charp, sexp_integerp, sexp_nullp, sexp_truep, sexp_unbox_character,
    sexp_unbox_fixnum,
};
use crate::text::{char_glyph, decimal, decimal_text, glyphs, Glyph, Text};
use crate::tree::{lemma_tree_is_list, tree, Tree};

verus! {

/// What `std` prints for the text `text` with `{:?}`: the text between
/// double quotes, with its quotes, backslashes and unprintable characters
/// escaped.
pub uninterp spec fn debug_quoted(text: Seq<char>) -> Seq<char>;

/// `format!("{:?}", text)` of `std`: the text as `Debug` prints a `str`.
#[verifier::external_body]
fn quote(text: &str) -> (out: std::string::String)
    ensures
        out@ == debug_quoted(text@),
{
    format!("{:?}", text)
}

/// The printed form of a value.
pub open spec fn rendering(t: Tree) -> Seq<Glyph>
    decreases t, 1int,
{
    match t {
        Tree::Boolean(b) => if b {
            glyphs("#t"@)
        } else {
            glyphs("#f"@)
        },
        Tree::Character(c) => glyphs("#\\"@).push(char_glyph(c as char)),
        Tree::Integer(n) => glyphs(decimal_text(n)),
        Tree::Null => glyphs("()"@),
        Tree::String(text) => glyphs(debug_quoted(text)),
        Tree::Symbol(name) => glyphs(debug_quoted(name)),
        Tree::Rational(bits) => seq![Glyph::Flonum(bits)],
        Tree::Exception(message) => glyphs("error: "@) + rendering(*message),
        Tree::Pair(head, tail) => if t.is_list() {
            glyphs("("@) + items(t) + glyphs(")"@)
        } else {
            glyphs("("@) + rendering(*head) + glyphs(" . "@) + rendering(*tail) + glyphs(")"@)
        },
        Tree::Void | Tree::Environment | Tree::Unknown => Seq::empty(),
    }
}

/// The printed forms of the items of the chain of pairs `t`, with one space
/// between two of them.
pub open spec fn items(t: Tree) -> Seq<Glyph>
    decreases t, 0int,
{
    match t {
        Tree::Pair(head, tail) => if *tail is Pair {
            rendering(*head) + glyphs(" "@) + items(*tail)
        } else {
            rendering(*head)
        },
        _ => Seq::empty(),
    }
}

/// Appends the printed form of `x` to `out`.
pub fn write_value(ctx: &Context, x: u64, out: &mut Text)
    requires
        is_value(ctx@, x),
    ensures
        final(out)@ == old(out)@ + rendering(tree(ctx@, x)),
    decreases rank(x), 1int,
{
    proof {
        use_type_invariant(ctx);
        lemma_tree_is_list(ctx@, x);
    }
    if sexp_booleanp(x) {
        if sexp_truep(x) {
            out.push_str("#t");
        } else {
            out.push_str("#f");
        }
    } else if sexp_charp(x) {
        let c: char = sexp_unbox_character(x) as char;
        out.push_str("#\\");
        out.push(c);
    } else if sexp_nullp(x) {
        out.push_str("()");
    } else if sexp_integerp(x) {
        let digits = decimal(sexp_unbox_fixnum(x));
        out.push_str(digits.as_str());
    } else if sexp_pairp(ctx, x) {
        if sexp_truep(sexp_listp(ctx, x)) {
            out.push_str("(");
            write_items(ctx, x, out);
            out.push_str(")");
        } else {
            out.push_str("(");
            write_value(ctx, sexp_car(ctx, x), out);
            out.push_str(" . ");
            write_value(ctx, sexp_cdr(ctx, x), out);
            out.push_str(")");
        }
    } else if sexp_stringp(ctx, x) {
        let quoted = quote(sexp_string_data(ctx, x));
        out.push_str(quoted.as_str());
    } else if sexp_flonump(ctx, x) {
        out.push_flonum(sexp_flonum_value(ctx, x));
    } else if sexp_lsymbolp(ctx, x) {
        let quoted = quote(sexp_symbol_data(ctx, x));
        out.push_str(quoted.as_str());
    } else if sexp_exceptionp(ctx, x) {
        out.push_str("error: ");
        write_value(ctx, sexp_exception_message(ctx, x), out);
    }
}

/// Appends the printed forms of the items of the chain of pairs that starts
/// at `x`, with one space between two of them.
fn write_items(ctx: &Context, x: u64, out: &mut Text)
    requires
        is_pair(ctx@, x),
    ensures
        final(out)@ == old(out)@ + items(tree(ctx@, x)),
    decreases rank(x), 0int,
{
    proof {
        use_type_invariant(ctx);
    }
    let mut cur: u64 = x;
    let ghost mut done: Seq<Glyph> = Seq::empty();
    loop
        invariant_except_break
            out@ == old(out)@ + done,
            items(tree(ctx@, x)) == done + items(tree(ctx@, cur)),
        invariant
            ctx.wf(),
            is_pair(ctx@, cur),
            rank(cur) <= rank(x),
        ensures
            out@ == old(out)@ + items(tree(ctx@, x)),
        decreases rank(cur),
    {
        write_value(ctx, sexp_car(ctx, cur), out);
        let next: u64 = sexp_cdr(ctx, cur);
        let ghost head = rendering(tree(ctx@, car_of(ctx@, cur)));
        if sexp_pairp(ctx, next) {
            out.push_str(" ");
            proof {
                let step = head + glyphs(" "@);
                assert(done + items(tree(ctx@, cur)) =~= (done + step) + items(
                    tree(ctx@, next),
                ));
                done = done + step;
            }
            cur = next;
        } else {
            break;
        }
    }
}

impl SExp {
    /// The printed form of the value.
    pub fn fmt(&self, ctx: &Context) -> (out: Text)
        requires
            self.wf(ctx@),
        ensures
            out@ == rendering(self.tree(ctx@)),
    {
        let mut out = Text::new();
        write_value(ctx, self.raw().sexp, &mut out);
        out
    }
}

impl Pair {
    /// The printed form of the pair: its items between parentheses where it
    /// starts a proper list, its two parts around a dot where it does not.
    pub fn fmt(&self, ctx: &Context) -> (out: Text)
        requires
            self.wf(ctx@),
        ensures
            out@ == rendering(tree(ctx@, self.word())),
    {
        let mut out = Text::new();
        write_value(ctx, self.raw().sexp, &mut out);
        out
    }
}

impl Exception {
    /// The printed form of the exception: `error: ` and its message.
    pub fn fmt(&self, ctx: &Context) -> (out: Text)
        requires
            self.wf(ctx@),
        ensures
            out@ == rendering(tree(ctx@, self.word())),
    {
        let mut out = Text::new();
        write_value(ctx, self.raw().sexp, &mut out);
        out
    }
}

} // verus!
