use chibi_scheme::heap::Context;
use chibi_scheme::sexp::{Bool, Char, Integer, Null, Pair, Rational, SExp, String, Symbol};
use chibi_scheme::text::{Piece, Text};

fn show(text: &Text) -> std::string::String {
    let mut out = std::string::String::new();
    for piece in text.pieces() {
        match piece {
            Piece::Text(s) => out.push_str(s),
            Piece::Flonum(bits) => out.push_str(&format!("{}", f64::from_bits(*bits))),
        }
    }
    out
}

fn boolean(b: bool) -> SExp {
    SExp::Bool(Bool::from(b))
}

fn integer(i: i64) -> SExp {
    SExp::Integer(Integer::from(i))
}

fn character(c: u8) -> SExp {
    SExp::Char(Char::from(c))
}

fn null() -> SExp {
    SExp::Null(Null::new())
}

/// What the evaluator hands back for a value: its raw word, classified.
fn evaluated(ctx: &Context, value: SExp) -> SExp {
    match ctx.eval_result(value.raw()) {
        Ok(v) => v,
        Err(e) => panic!("{}", show(&e.fmt(ctx))),
    }
}

fn list(ctx: &mut Context, items: &[SExp]) -> SExp {
    let mut tail = null();
    for item in items.iter().rev() {
        tail = SExp::Pair(ctx.cons(item, &tail));
    }
    tail
}

#[test]
fn eval_test_bool() {
    let ctx = Context::default();
    assert_eq!(evaluated(&ctx, boolean(true)).expect::<Bool>(), Some(Bool::from(true)));
    assert_eq!(evaluated(&ctx, boolean(false)).expect::<Bool>(), Some(Bool::from(false)));
    assert_eq!(evaluated(&ctx, boolean(true)).expect::<Char>(), None);
    assert!(evaluated(&ctx, boolean(true)).expect::<String>().is_none());
}

#[test]
fn eval_test_char() {
    let ctx = Context::default();
    assert_eq!(evaluated(&ctx, character(b's')).expect::<Bool>(), None);
    assert!(evaluated(&ctx, character(b's')).expect::<String>().is_none());
    assert_eq!(evaluated(&ctx, character(b'h')).expect::<Char>(), Some(Char::from(b'h')));
}

#[test]
fn eval_test_string() {
    let mut ctx = Context::default();
    let foo = SExp::String(ctx.string("foo"));
    let a = SExp::String(ctx.string("a"));
    let bar = SExp::String(ctx.string("bar"));
    let bar_again = SExp::String(ctx.string("bar"));
    assert_eq!(evaluated(&ctx, foo).expect::<Bool>(), None);
    assert_eq!(evaluated(&ctx, a).expect::<Char>(), None);
    let left = evaluated(&ctx, bar).expect::<String>().unwrap();
    let right = evaluated(&ctx, bar_again).expect::<String>().unwrap();
    assert!(SExp::String(left).equalp(&ctx, &SExp::String(right)));
    let other = evaluated(&ctx, foo).expect::<String>().unwrap();
    assert!(!SExp::String(other).equalp(&ctx, &SExp::String(right)));
}

#[test]
fn lib_test_pair() {
    let mut ctx = Context::default();
    // '(#\c . #f)
    let made = ctx.cons(&character(b'c'), &boolean(false));
    let read = SExp::Pair(ctx.cons(&character(b'c'), &boolean(false)));
    let read = evaluated(&ctx, read).expect::<Pair>().unwrap();
    assert!(SExp::Pair(made).equalp(&ctx, &SExp::Pair(read)));

    let dotted = SExp::Pair(ctx.cons(&boolean(true), &boolean(false)));
    assert_eq!("(#t . #f)", show(&evaluated(&ctx, dotted).fmt(&ctx)));

    let inner = SExp::Pair(ctx.cons(&boolean(true), &boolean(false)));
    let three = list(&mut ctx, &[character(b'c'), boolean(true), inner]);
    assert_eq!("(#\\c #t (#t . #f))", show(&evaluated(&ctx, three).fmt(&ctx)));

    let tail = SExp::Pair(ctx.cons(&integer(1), &integer(2)));
    let nested = SExp::Pair(ctx.cons(&boolean(true), &tail));
    assert_eq!("(#t . (1 . 2))", show(&evaluated(&ctx, nested).fmt(&ctx)));

    let numbers = list(&mut ctx, &[integer(1), integer(2), integer(3)]);
    assert_eq!("(1 2 3)", show(&evaluated(&ctx, numbers).fmt(&ctx)));

    let x = SExp::Symbol(ctx.intern("x"));
    let keyed = SExp::Pair(ctx.cons(&x, &integer(1)));
    assert_eq!("(\"x\" . 1)", show(&evaluated(&ctx, keyed).fmt(&ctx)));

    // '((x . 1) (y . 2))
    let y = SExp::Symbol(ctx.intern("y"));
    let second = SExp::Pair(ctx.cons(&y, &integer(2)));
    let both = list(&mut ctx, &[keyed, second]);
    let pair_struct = evaluated(&ctx, both).expect::<Pair>().unwrap();
    let pair_x = pair_struct.car(&ctx).expect::<Pair>().unwrap();
    let x_symbol = pair_x.car(&ctx).expect::<Symbol>().unwrap();
    assert_eq!(x_symbol.data(&ctx), "x");
    let x_value = pair_x.cdr(&ctx).expect::<Integer>().unwrap();
    let pair_y = pair_struct.cdr(&ctx).expect::<Pair>().unwrap();
    assert!(pair_y.is_list(&ctx));
    let x_value_i64: i64 = x_value.value();
    assert_eq!(x_value_i64, 1)
}

#[test]
fn lib_test_null() {
    let ctx = Context::default();
    assert_eq!(evaluated(&ctx, null()).expect::<Null>(), Some(Null::new()));
}

#[test]
fn lib_test_bool() {
    let ctx = Context::default();
    assert_eq!(evaluated(&ctx, boolean(true)).expect::<Bool>(), Some(Bool::from(true)));
    assert_eq!(evaluated(&ctx, boolean(false)).expect::<Bool>(), Some(Bool::from(false)));
    assert_eq!(evaluated(&ctx, boolean(true)).expect::<Char>(), None);
    assert!(Bool::from(true).value());
    assert!(!Bool::from(false).value());
}

#[test]
fn lib_test_char() {
    let ctx = Context::default();
    assert_eq!(evaluated(&ctx, character(b's')).expect::<Bool>(), None);
    assert_eq!(evaluated(&ctx, character(b'h')).expect::<Char>(), Some(Char::from(b'h')));
    assert_eq!(Char::from(b'h').value(), b'h');
    assert_eq!(show(&character(b'h').fmt(&ctx)), "#\\h");
}

#[test]
fn lib_test_integer() {
    let ctx = Context::default();
    assert_eq!(evaluated(&ctx, character(b's')).expect::<Integer>(), None);
    assert_eq!(evaluated(&ctx, integer(1 + 3)).expect::<Integer>(), Some(Integer::from(4)));
}

#[test]
fn lib_test_rational() {
    let mut ctx = Context::default();
    let read = SExp::Rational(ctx.flonum(4.5f64.to_bits()));
    assert_eq!("4.5", show(&evaluated(&ctx, read).fmt(&ctx)));

    let made = SExp::Rational(ctx.flonum(4.5f64.to_bits()));
    let taken = evaluated(&ctx, read).expect::<Rational>().unwrap();
    assert!(SExp::Rational(taken).equalp(&ctx, &made));
    assert_eq!(f64::from_bits(taken.value(&ctx)), 4.5);

    let sum = SExp::Rational(ctx.flonum((3.0f64 + 1.5).to_bits()));
    let taken = evaluated(&ctx, sum).expect::<Rational>().unwrap();
    assert!(SExp::Rational(taken).equalp(&ctx, &made));
}

#[test]
fn lib_test_string() {
    let mut ctx = Context::default();
    let foo = SExp::String(ctx.string("foo"));
    let bar = SExp::String(ctx.string("bar"));
    let foo = evaluated(&ctx, foo).expect::<String>().unwrap();
    let bar = evaluated(&ctx, bar).expect::<String>().unwrap();
    assert!(SExp::String(foo).equalp(&ctx, &SExp::String(foo)));
    assert!(!SExp::String(foo).equalp(&ctx, &SExp::String(bar)));
    assert_eq!("\"foo\"", format!("{:?}", foo.data(&ctx)));
}

#[test]
fn lib_test_symbol() {
    let mut ctx = Context::default();
    let foo = SExp::Symbol(ctx.intern("foo"));
    let bar = SExp::Symbol(ctx.intern("bar"));
    let foo = evaluated(&ctx, foo).expect::<Symbol>().unwrap();
    let bar = evaluated(&ctx, bar).expect::<Symbol>().unwrap();
    assert!(SExp::Symbol(foo).equalp(&ctx, &SExp::Symbol(foo)));
    assert!(!SExp::Symbol(foo).equalp(&ctx, &SExp::Symbol(bar)));
}

#[test]
fn a_symbol_gives_its_name_as_a_new_string() {
    let mut ctx = Context::default();
    let foo = ctx.intern("foo");
    let first = ctx.symbol_to_string(&foo);
    let second = ctx.symbol_to_string(&foo);
    assert_ne!(first.raw(), second.raw());
    assert_eq!(first.data(&ctx), "foo");
    assert_eq!(foo.to_string(&ctx), "foo");
    assert!(SExp::String(first).equalp(&ctx, &SExp::String(second)));
    assert!(!SExp::String(first).equalp(&ctx, &SExp::Symbol(foo)));
}

#[test]
fn an_exception_carries_its_message() {
    let mut ctx = Context::default();
    let message = SExp::String(ctx.string("boom"));
    let e = ctx.exception(&message);
    assert!(e.message(&ctx).equalp(&ctx, &message));
    assert_eq!(show(&e.fmt(&ctx)), "error: \"boom\"");
    let same = ctx.exception(&message);
    assert!(SExp::Exception(e).equalp(&ctx, &SExp::Exception(same)));
    let first = ctx.environment();
    let second = ctx.environment();
    assert!(!SExp::Env(first).equalp(&ctx, &SExp::Env(second)));
    assert!(SExp::Env(first).equalp(&ctx, &SExp::Env(first)));
    assert!(ctx.has_room());
}
