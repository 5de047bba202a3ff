use chibi_scheme::heap::Context;
use chibi_scheme::sexp::{Bool, Char, Integer, Null, RawSExp, SExp, Void};
use chibi_scheme::tags::{SEXP_MAX_FIXNUM, SEXP_MIN_FIXNUM};
use chibi_scheme::text::{Piece, Text};

fn show(text: &Text) -> String {
    let mut out = String::new();
    for piece in text.pieces() {
        match piece {
            Piece::Text(s) => out.push_str(s),
            Piece::Flonum(bits) => out.push_str(&format!("{}", f64::from_bits(*bits))),
        }
    }
    out
}

fn boolean(b: bool) -> SExp {
    SExp::Bool(Bool::from(b))
}

fn integer(i: i64) -> SExp {
    SExp::Integer(Integer::from(i))
}

fn character(c: u8) -> SExp {
    SExp::Char(Char::from(c))
}

fn null() -> SExp {
    SExp::Null(Null::new())
}

/// What the evaluator hands back for a value: its raw word, classified.
fn evaluated(ctx: &Context, value: &SExp) -> Result<SExp, String> {
    match ctx.eval_result(value.raw()) {
        Ok(v) => Ok(v),
        Err(e) => Err(show(&e.fmt(ctx))),
    }
}

#[test]
fn sexp_test_pair() {
    let mut ctx = Context::default();
    // '(#\c . #f)
    let made = SExp::Pair(ctx.cons(&character(b'c'), &boolean(false)));
    let read = SExp::Pair(ctx.cons(&character(b'c'), &boolean(false)));
    assert!(made.equalp(&ctx, &evaluated(&ctx, &read).unwrap()));

    // '(#t . #f)
    let dotted = SExp::Pair(ctx.cons(&boolean(true), &boolean(false)));
    assert_eq!("(#t . #f)", show(&evaluated(&ctx, &dotted).unwrap().fmt(&ctx)));

    // '(#\c #t (#t . #f))
    let inner = SExp::Pair(ctx.cons(&boolean(true), &boolean(false)));
    let l3 = SExp::Pair(ctx.cons(&inner, &null()));
    let l2 = SExp::Pair(ctx.cons(&boolean(true), &l3));
    let l1 = SExp::Pair(ctx.cons(&character(b'c'), &l2));
    assert_eq!("(#\\c #t (#t . #f))", show(&evaluated(&ctx, &l1).unwrap().fmt(&ctx)));

    // '(#t . (1 . 2))
    let tail = SExp::Pair(ctx.cons(&integer(1), &integer(2)));
    let nested = SExp::Pair(ctx.cons(&boolean(true), &tail));
    assert_eq!("(#t . (1 . 2))", show(&evaluated(&ctx, &nested).unwrap().fmt(&ctx)));

    // '(1 2 3)
    let c3 = SExp::Pair(ctx.cons(&integer(3), &null()));
    let c2 = SExp::Pair(ctx.cons(&integer(2), &c3));
    let c1 = SExp::Pair(ctx.cons(&integer(1), &c2));
    assert_eq!("(1 2 3)", show(&evaluated(&ctx, &c1).unwrap().fmt(&ctx)));

    // '(x . 1)
    let x = SExp::Symbol(ctx.intern("x"));
    let keyed = SExp::Pair(ctx.cons(&x, &integer(1)));
    assert_eq!("(\"x\" . 1)", show(&evaluated(&ctx, &keyed).unwrap().fmt(&ctx)));
}

#[test]
fn sexp_test_null() {
    let ctx = Context::default();
    let read = evaluated(&ctx, &null()).unwrap();
    assert!(matches!(read, SExp::Null(_)));
    assert!(read.equalp(&ctx, &null()));
}

#[test]
fn sexp_test_bool() {
    let ctx = Context::default();
    let t = evaluated(&ctx, &boolean(true)).unwrap();
    let f = evaluated(&ctx, &boolean(false)).unwrap();
    assert!(matches!(t, SExp::Bool(b) if b == Bool::from(true)));
    assert!(matches!(f, SExp::Bool(b) if b == Bool::from(false)));
}

#[test]
fn sexp_test_char() {
    let ctx = Context::default();
    let h = evaluated(&ctx, &character(b'h')).unwrap();
    assert!(matches!(h, SExp::Char(c) if c == Char::from(b'h')));
}

#[test]
fn sexp_test_integer() {
    let ctx = Context::default();
    let four = evaluated(&ctx, &integer(1 + 3)).unwrap();
    assert!(matches!(four, SExp::Integer(i) if i == Integer::from(4)));

    let max = evaluated(&ctx, &integer(SEXP_MAX_FIXNUM)).unwrap();
    assert!(matches!(max, SExp::Integer(i) if i == Integer::from(SEXP_MAX_FIXNUM)
        && i.value() == SEXP_MAX_FIXNUM));

    let min = evaluated(&ctx, &integer(SEXP_MIN_FIXNUM)).unwrap();
    assert!(matches!(min, SExp::Integer(i) if i == Integer::from(SEXP_MIN_FIXNUM)
        && i.value() == SEXP_MIN_FIXNUM));
}

#[test]
fn sexp_test_rational() {
    let mut ctx = Context::default();
    let read = SExp::Rational(ctx.flonum(4.5f64.to_bits()));
    assert_eq!("4.5", show(&evaluated(&ctx, &read).unwrap().fmt(&ctx)));
    let made = SExp::Rational(ctx.flonum(4.5f64.to_bits()));
    assert!(evaluated(&ctx, &read).unwrap().equalp(&ctx, &made));
}

#[test]
fn sexp_test_string() {
    let mut ctx = Context::default();
    let made = SExp::String(ctx.string("foo"));
    let read = SExp::String(ctx.string("foo"));
    assert!(made.equalp(&ctx, &evaluated(&ctx, &read).unwrap()));
}

#[test]
fn sexp_test_symbol() {
    let mut ctx = Context::default();
    let made = SExp::Symbol(ctx.intern("foo"));
    let read = SExp::Symbol(ctx.intern("foo"));
    assert!(made.equalp(&ctx, &evaluated(&ctx, &read).unwrap()));
    assert_eq!(made.raw(), read.raw());
}

#[test]
fn test_standard_env() {
    let mut ctx = Context::default();
    let env = ctx.environment();
    assert!(ctx.env_result(env.raw()).is_ok());
    // (first '(1 2))
    let c2 = SExp::Pair(ctx.cons(&integer(2), &null()));
    let list = ctx.cons(&integer(1), &c2);
    let first = evaluated(&ctx, &list.car(&ctx)).unwrap();
    assert!(first.equalp(&ctx, &integer(1)));
}

#[test]
fn an_exception_is_the_error_of_an_evaluation() {
    let mut ctx = Context::default();
    let message = SExp::String(ctx.string("undefined variable"));
    let failed = ctx.exception(&message);
    let read = ctx.eval_result(failed.raw());
    assert!(read.is_err());
    assert_eq!(show(&read.err().unwrap().fmt(&ctx)), "error: \"undefined variable\"");
    assert!(ctx.env_result(failed.raw()).is_err());
}

#[test]
fn every_constructor_classifies_as_its_kind() {
    let mut ctx = Context::default();
    assert!(matches!(SExp::from(&ctx, Bool::from(true).raw()), SExp::Bool(_)));
    assert!(matches!(SExp::from(&ctx, Char::from(b'a').raw()), SExp::Char(_)));
    assert!(matches!(SExp::from(&ctx, Integer::from(-7).raw()), SExp::Integer(_)));
    assert!(matches!(SExp::from(&ctx, Null::new().raw()), SExp::Null(_)));
    assert!(matches!(SExp::from(&ctx, Void::new().raw()), SExp::Void(_)));
    let r = ctx.flonum(1.5f64.to_bits()).raw();
    assert!(matches!(SExp::from(&ctx, r), SExp::Rational(_)));
    let s = ctx.string("s").raw();
    assert!(matches!(SExp::from(&ctx, s), SExp::String(_)));
    let y = ctx.intern("y").raw();
    assert!(matches!(SExp::from(&ctx, y), SExp::Symbol(_)));
    let p = ctx.cons(&null(), &null()).raw();
    assert!(matches!(SExp::from(&ctx, p), SExp::Pair(_)));
    let message = SExp::from(&ctx, s);
    let e = ctx.exception(&message).raw();
    assert!(matches!(SExp::from(&ctx, e), SExp::Exception(_)));
    let v = ctx.environment().raw();
    assert!(matches!(SExp::from(&ctx, v), SExp::Env(_)));
    assert_eq!(RawSExp::new(v.sexp), v);
}

#[test]
fn equal_strings_are_two_objects_and_equal_symbols_one() {
    let mut ctx = Context::default();
    let a = ctx.string("same");
    let b = ctx.string("same");
    assert_ne!(a.raw(), b.raw());
    assert!(SExp::String(a).equalp(&ctx, &SExp::String(b)));
    let other = ctx.string("other");
    assert!(!SExp::String(a).equalp(&ctx, &SExp::String(other)));

    let before = ctx.len();
    let x = ctx.intern("name");
    let y = ctx.intern("name");
    assert_eq!(x.raw(), y.raw());
    assert_eq!(ctx.len(), before + 1);
    let z = ctx.intern("another");
    assert_ne!(x.raw(), z.raw());
    assert!(!SExp::Symbol(x).equalp(&ctx, &SExp::Symbol(z)));
    assert_eq!(x.data(&ctx), "name");
    assert_eq!(a.len(&ctx), 4);
    assert_eq!(a.to_string(&ctx), "same");
}

#[test]
fn void_and_environment_print_nothing() {
    let mut ctx = Context::default();
    assert_eq!(show(&SExp::Void(Void::new()).fmt(&ctx)), "");
    let env = SExp::Env(ctx.environment());
    assert_eq!(show(&env.fmt(&ctx)), "");
    assert_eq!(show(&null().fmt(&ctx)), "()");
    assert_eq!(show(&integer(-120).fmt(&ctx)), "-120");
    assert_eq!(show(&integer(0).fmt(&ctx)), "0");
    assert_eq!(show(&integer(SEXP_MIN_FIXNUM).fmt(&ctx)), "-4611686018427387904");
}

#[test]
fn a_string_prints_quoted_and_escaped() {
    let mut ctx = Context::default();
    let s = SExp::String(ctx.string("say \"hi\"\n"));
    assert_eq!(show(&s.fmt(&ctx)), "\"say \\\"hi\\\"\\n\"");
    assert_eq!(s.fmt(&ctx).as_plain(), Some("\"say \\\"hi\\\"\\n\"".to_string()));
    let r = SExp::Rational(ctx.flonum(2.5f64.to_bits()));
    assert_eq!(r.fmt(&ctx).as_plain(), None);
    let both = SExp::Pair(ctx.cons(&s, &r));
    assert_eq!(both.fmt(&ctx).as_plain(), None);
    assert_eq!(show(&both.fmt(&ctx)), "(\"say \\\"hi\\\"\\n\" . 2.5)");
    assert_eq!(show(&both.fmt(&ctx).duplicate()), show(&both.fmt(&ctx)));
}

#[test]
fn a_list_is_told_from_a_dotted_chain() {
    let mut ctx = Context::default();
    let end = ctx.cons(&integer(2), &integer(3));
    let chain = ctx.cons(&integer(1), &SExp::Pair(end));
    assert!(!chain.is_list(&ctx));
    assert!(!ctx.listp(&chain));
    assert_eq!(show(&chain.fmt(&ctx)), "(1 . (2 . 3))");
    let one = ctx.cons(&integer(1), &null());
    assert!(one.is_list(&ctx));
    assert_eq!(show(&one.fmt(&ctx)), "(1)");
    let inner = ctx.cons(&SExp::Pair(one), &null());
    assert_eq!(show(&inner.fmt(&ctx)), "((1))");
    assert!(chain.cdr(&ctx).equalp(&ctx, &SExp::Pair(end)));
}

#[test]
fn equal_texts_are_equal_however_they_were_made() {
    let mut one = Text::new();
    one.push_str("(1");
    one.push_str("");
    one.push(' ');
    one.push_str(". ");
    one.push_flonum(2.5f64.to_bits());
    one.push(')');
    let mut other = Text::from_str("(1 . ");
    other.push_flonum(2.5f64.to_bits());
    other.push_str(")");
    assert_eq!(one, other);
    assert_eq!(one.pieces().len(), 3);
    assert_eq!(show(&one), "(1 . 2.5)");
    assert_eq!(Text::from_str("").pieces().len(), 0);
    assert_eq!(Text::from_str("ab").as_plain(), Some("ab".to_string()));
    assert_ne!(Text::from_str("ab"), Text::from_str("abc"));
}
