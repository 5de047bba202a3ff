use chibi_scheme::de::{from_sexp, AssocList, Decoded, DecodedField, Deserializer, Field, Schema};
use chibi_scheme::error::Error;
use chibi_scheme::heap::Context;
use chibi_scheme::sexp::{Bool, Char, Integer, Null, SExp, Void};
use chibi_scheme::tags::SEXP_MAX_FIXNUM;
use chibi_scheme::text::{Piece, Text};

fn show(text: &Text) -> String {
    let mut out = String::new();
    for piece in text.pieces() {
        match piece {
            Piece::Text(s) => out.push_str(s),
            Piece::Flonum(bits) => out.push_str(&format!("{}", f64::from_bits(*bits))),
        }
    }
    out
}

fn boolean(b: bool) -> SExp {
    SExp::Bool(Bool::from(b))
}

fn integer(i: i64) -> SExp {
    SExp::Integer(Integer::from(i))
}

fn null() -> SExp {
    SExp::Null(Null::new())
}

fn field(name: &str, schema: Schema) -> Field {
    Field { name: name.to_string(), schema }
}

fn decoded(name: &str, value: Decoded) -> DecodedField {
    DecodedField { name: name.to_string(), value }
}

/// The list of `items`.
fn list(ctx: &mut Context, items: &[SExp]) -> SExp {
    let mut tail = null();
    for item in items.iter().rev() {
        tail = SExp::Pair(ctx.cons(item, &tail));
    }
    tail
}

/// The entry `(key . value)`.
fn entry(ctx: &mut Context, key: &str, value: SExp) -> SExp {
    let key = SExp::Symbol(ctx.intern(key));
    SExp::Pair(ctx.cons(&key, &value))
}

/// '((foo . 3) (bar . #f) (baz . 5.5))
fn foo_list(ctx: &mut Context) -> SExp {
    let foo = entry(ctx, "foo", integer(3));
    let bar = entry(ctx, "bar", boolean(false));
    let number = SExp::Rational(ctx.flonum(5.5f64.to_bits()));
    let baz = entry(ctx, "baz", number);
    list(ctx, &[foo, bar, baz])
}

fn foo_schema() -> Schema {
    Schema::Struct(vec![
        field("bar", Schema::Bool),
        field("foo", Schema::I32),
        field("baz", Schema::F64),
    ])
}

fn foo_value() -> Decoded {
    Decoded::Struct(vec![
        decoded("bar", Decoded::Bool(false)),
        decoded("foo", Decoded::I32(3)),
        decoded("baz", Decoded::F64(5.5f64.to_bits())),
    ])
}

#[test]
fn test_deserialize_bool() {
    let ctx = Context::default();
    assert_eq!(from_sexp(&ctx, boolean(false), &Schema::Bool), Ok(Decoded::Bool(false)));
    assert_eq!(from_sexp(&ctx, boolean(true), &Schema::Bool), Ok(Decoded::Bool(true)));
}

#[test]
fn test_deserialize_i64() {
    let ctx = Context::default();
    for (value, expected) in [
        (integer(1), 1i64),
        (integer(0), 0),
        (integer(-1), -1),
        (integer(i32::MAX as i64), i32::MAX as i64),
        (integer(SEXP_MAX_FIXNUM), SEXP_MAX_FIXNUM),
    ] {
        assert_eq!(from_sexp(&ctx, value, &Schema::I64), Ok(Decoded::I64(expected)));
    }
}

#[test]
fn test_deserialize_i32() {
    let ctx = Context::default();
    for (value, expected) in [
        (integer(1), 1i32),
        (integer(0), 0),
        (integer(-1), -1),
        (integer(i32::MAX as i64), i32::MAX),
    ] {
        assert_eq!(from_sexp(&ctx, value, &Schema::I32), Ok(Decoded::I32(expected)));
    }
}

#[test]
fn test_deserialize_f64() {
    let mut ctx = Context::default();
    for expected in [1.0f64, 0.0, -1.5] {
        let value = SExp::Rational(ctx.flonum(expected.to_bits()));
        match from_sexp(&ctx, value, &Schema::F64) {
            Ok(Decoded::F64(bits)) => assert_eq!(f64::from_bits(bits), expected),
            other => panic!("Expected {:?} but got {:?}", expected, other),
        }
    }
}

#[test]
fn test_deserialize_f32() {
    let mut ctx = Context::default();
    for expected in [1.0f32, 0.0, -1.5] {
        let value = SExp::Rational(ctx.flonum((expected as f64).to_bits()));
        match from_sexp(&ctx, value, &Schema::F32) {
            Ok(Decoded::F32(bits)) => assert_eq!(f64::from_bits(bits) as f32, expected),
            other => panic!("Expected {:?} but got {:?}", expected, other),
        }
    }
}

#[test]
fn test_deserialize_string() {
    let mut ctx = Context::default();
    for expected in ["a", "b", "c"] {
        let value = SExp::String(ctx.string(expected));
        assert_eq!(
            from_sexp(&ctx, value, &Schema::String),
            Ok(Decoded::String(expected.to_string()))
        );
    }
}

#[test]
fn test_deserialize_struct() {
    let mut ctx = Context::default();
    let foo = foo_list(&mut ctx);
    assert_eq!(Ok(foo_value()), from_sexp(&ctx, foo, &foo_schema()));
}

#[test]
fn test_deserialize_nested_struct() {
    let mut ctx = Context::default();
    // '((cow . #t) (qux . ((foo . 3) (bar . #f) (baz . 5.5))))
    let cow = entry(&mut ctx, "cow", boolean(true));
    let inner = foo_list(&mut ctx);
    let qux = entry(&mut ctx, "qux", inner);
    let bar = list(&mut ctx, &[cow, qux]);
    let schema = Schema::Struct(vec![field("cow", Schema::Bool), field("qux", foo_schema())]);
    let expected = Decoded::Struct(vec![
        decoded("cow", Decoded::Bool(true)),
        decoded("qux", foo_value()),
    ]);
    assert_eq!(Ok(expected), from_sexp(&ctx, bar, &schema));
}

#[test]
fn an_integer_is_narrowed_with_a_check() {
    let ctx = Context::default();
    let max = integer(i32::MAX as i64);
    assert_eq!(from_sexp(&ctx, max, &Schema::I32), Ok(Decoded::I32(i32::MAX)));
    assert!(matches!(from_sexp(&ctx, max, &Schema::I8), Err(Error::IntegerTooLargeForBytes(_))));
    assert!(matches!(from_sexp(&ctx, max, &Schema::I16), Err(Error::IntegerTooLargeForBytes(_))));
    assert_eq!(from_sexp(&ctx, max, &Schema::U32), Ok(Decoded::U32(i32::MAX as u32)));
    assert_eq!(from_sexp(&ctx, integer(127), &Schema::I8), Ok(Decoded::I8(127)));
    assert_eq!(from_sexp(&ctx, integer(-128), &Schema::I8), Ok(Decoded::I8(-128)));
    assert!(matches!(
        from_sexp(&ctx, integer(128), &Schema::I8),
        Err(Error::IntegerTooLargeForBytes(_))
    ));
    assert_eq!(from_sexp(&ctx, integer(255), &Schema::U8), Ok(Decoded::U8(255)));
    assert!(matches!(
        from_sexp(&ctx, integer(256), &Schema::U8),
        Err(Error::IntegerTooLargeForBytes(_))
    ));
    assert_eq!(from_sexp(&ctx, integer(65535), &Schema::U16), Ok(Decoded::U16(65535)));
    assert_eq!(from_sexp(&ctx, integer(-32768), &Schema::I16), Ok(Decoded::I16(-32768)));
    for schema in [Schema::U8, Schema::U16, Schema::U32, Schema::U64] {
        let r = from_sexp(&ctx, integer(-1), &schema);
        assert!(matches!(r, Err(Error::IntegerTooLargeForBytes(_))));
        assert!(r.as_ref().err().unwrap().cause().is_some());
        assert_eq!(show(&r.err().unwrap().description()), "Integer too large for bytes");
    }
    assert_eq!(
        from_sexp(&ctx, integer(SEXP_MAX_FIXNUM), &Schema::U64),
        Ok(Decoded::U64(SEXP_MAX_FIXNUM as u64))
    );
}

#[test]
fn a_mismatch_names_the_kind_and_shows_the_value() {
    let mut ctx = Context::default();
    let three = integer(3);
    let text = SExp::String(ctx.string("t"));
    let number = SExp::Rational(ctx.flonum(5.5f64.to_bits()));
    match from_sexp(&ctx, three, &Schema::Bool) {
        Err(Error::ExpectedBoolean(found)) => assert_eq!(show(&found), "3"),
        other => panic!("{:?}", other),
    }
    match from_sexp(&ctx, boolean(true), &Schema::I64) {
        Err(Error::ExpectedInteger(found)) => assert_eq!(show(&found), "#t"),
        other => panic!("{:?}", other),
    }
    match from_sexp(&ctx, number, &Schema::I64) {
        Err(Error::ExpectedInteger(found)) => {
            assert_eq!(*found.pieces(), vec![Piece::Flonum(5.5f64.to_bits())]);
            assert_eq!(show(&found), "5.5");
        }
        other => panic!("{:?}", other),
    }
    match from_sexp(&ctx, three, &Schema::F64) {
        Err(Error::ExpectedRational(found)) => assert_eq!(show(&found), "3"),
        other => panic!("{:?}", other),
    }
    match from_sexp(&ctx, three, &Schema::F32) {
        Err(Error::ExpectedRational(found)) => assert_eq!(show(&found), "3"),
        other => panic!("{:?}", other),
    }
    match from_sexp(&ctx, text, &Schema::Char) {
        Err(Error::ExpectedChar(found)) => assert_eq!(show(&found), "\"t\""),
        other => panic!("{:?}", other),
    }
    match from_sexp(&ctx, null(), &Schema::String) {
        Err(Error::ExpectedString(found)) => assert_eq!(show(&found), "()"),
        other => panic!("{:?}", other),
    }
    match from_sexp(&ctx, text, &Schema::Identifier) {
        Err(e) => {
            assert!(matches!(e, Error::ExpectedSymbol(_)));
            assert!(e.cause().is_none());
            assert_eq!(show(&e.description()), "\"t\"");
        }
        other => panic!("{:?}", other),
    }
}

#[test]
fn a_character_and_an_identifier_are_decoded() {
    let mut ctx = Context::default();
    let c = SExp::Char(Char::from(b'h'));
    assert_eq!(from_sexp(&ctx, c, &Schema::Char), Ok(Decoded::Char('h')));
    let high = SExp::Char(Char::from(0xe9));
    assert_eq!(from_sexp(&ctx, high, &Schema::Char), Ok(Decoded::Char('\u{e9}')));
    let name = SExp::Symbol(ctx.intern("foo"));
    assert_eq!(
        from_sexp(&ctx, name, &Schema::Identifier),
        Ok(Decoded::Identifier("foo".to_string()))
    );
}

#[test]
fn an_unsupported_shape_fails_at_once() {
    let ctx = Context::default();
    let v = boolean(true);
    assert_eq!(from_sexp(&ctx, v, &Schema::Any), Err(Error::DeserializeAnyNotSupported));
    assert_eq!(
        from_sexp(&ctx, v, &Schema::IgnoredAny),
        Err(Error::DeserializeIgnoredAnyNotSupported)
    );
    assert_eq!(from_sexp(&ctx, v, &Schema::Sequence), Err(Error::DeserializeSeqNotSupported));
    assert_eq!(from_sexp(&ctx, v, &Schema::Optional), Err(Error::DeserializeOptionNotSupported));
    assert_eq!(from_sexp(&ctx, v, &Schema::Enum), Err(Error::DeserializeEnumNotSupported));
    assert_eq!(from_sexp(&ctx, v, &Schema::Bytes), Err(Error::DeserializeBytesNotSupported));
    assert_eq!(
        show(&Error::DeserializeAnyNotSupported.description()),
        "Deserialize any not supported"
    );
    assert_eq!(
        show(&Error::DeserializeIgnoredAnyNotSupported.description()),
        "Deserialize ignore any not supported"
    );
    assert_eq!(show(&Error::Message("m".to_string()).description()), "m");
}

#[test]
fn a_value_that_is_no_association_list_is_a_structural_error() {
    let mut ctx = Context::default();
    match from_sexp(&ctx, integer(5), &foo_schema()) {
        Err(Error::ExpectedPairOrEndOfAssocList(found)) => assert_eq!(show(&found), "5"),
        other => panic!("{:?}", other),
    }
    match from_sexp(&ctx, SExp::Void(Void::new()), &foo_schema()) {
        Err(Error::ExpectedPairOrEndOfAssocList(found)) => assert_eq!(show(&found), ""),
        other => panic!("{:?}", other),
    }
    // '(1 2)
    let plain = list(&mut ctx, &[integer(1), integer(2)]);
    match from_sexp(&ctx, plain, &foo_schema()) {
        Err(Error::ExpectedPair(found)) => assert_eq!(show(&found), "1"),
        other => panic!("{:?}", other),
    }
    // '((1 . 2))
    let keyless = SExp::Pair(ctx.cons(&integer(1), &integer(2)));
    let bad_key = list(&mut ctx, &[keyless]);
    match from_sexp(&ctx, bad_key, &foo_schema()) {
        Err(Error::ExpectedSymbol(found)) => assert_eq!(show(&found), "1"),
        other => panic!("{:?}", other),
    }
    // '((bar . #t) . 7)
    let bar = entry(&mut ctx, "bar", boolean(true));
    let dotted = SExp::Pair(ctx.cons(&bar, &integer(7)));
    match from_sexp(&ctx, dotted, &foo_schema()) {
        Err(Error::ExpectedPairOrEndOfAssocList(found)) => assert_eq!(show(&found), "7"),
        other => panic!("{:?}", other),
    }
}

#[test]
fn a_record_wants_each_field_once() {
    let mut ctx = Context::default();
    let schema = Schema::Struct(vec![field("a", Schema::I8), field("b", Schema::Bool)]);

    let a = entry(&mut ctx, "a", integer(1));
    let only_a = list(&mut ctx, &[a]);
    assert_eq!(
        from_sexp(&ctx, only_a, &schema),
        Err(Error::Message("missing field `b`".to_string()))
    );
    assert_eq!(
        from_sexp(&ctx, null(), &schema),
        Err(Error::Message("missing field `a`".to_string()))
    );
    assert_eq!(from_sexp(&ctx, null(), &Schema::Struct(vec![])), Ok(Decoded::Struct(vec![])));

    let again = entry(&mut ctx, "a", integer(2));
    let twice = list(&mut ctx, &[a, again]);
    assert_eq!(
        from_sexp(&ctx, twice, &schema),
        Err(Error::Message("duplicate field `a`".to_string()))
    );

    let b = entry(&mut ctx, "b", boolean(true));
    let c = entry(&mut ctx, "c", boolean(true));
    let unknown = list(&mut ctx, &[a, c, b]);
    assert_eq!(from_sexp(&ctx, unknown, &schema), Err(Error::DeserializeIgnoredAnyNotSupported));

    let wide = entry(&mut ctx, "a", integer(1000));
    let too_wide = list(&mut ctx, &[b, wide]);
    assert!(matches!(
        from_sexp(&ctx, too_wide, &schema),
        Err(Error::IntegerTooLargeForBytes(_))
    ));

    let both = list(&mut ctx, &[b, a]);
    assert_eq!(
        from_sexp(&ctx, both, &schema),
        Ok(Decoded::Struct(vec![decoded("a", Decoded::I8(1)), decoded("b", Decoded::Bool(true))]))
    );
}

#[test]
fn the_first_failure_ends_the_decoding() {
    let mut ctx = Context::default();
    // '((bar . 1) . 7) against the record: the value of bar fails first.
    let bar = entry(&mut ctx, "bar", integer(1));
    let dotted = SExp::Pair(ctx.cons(&bar, &integer(7)));
    match from_sexp(&ctx, dotted, &foo_schema()) {
        Err(Error::ExpectedBoolean(found)) => assert_eq!(show(&found), "1"),
        other => panic!("{:?}", other),
    }
}

#[test]
fn a_cursor_reads_keys_and_values() {
    let mut ctx = Context::default();
    let foo = foo_list(&mut ctx);
    let mut cursor = AssocList::new(foo);
    let key = cursor.next_key(&ctx).unwrap().unwrap();
    assert_eq!(Deserializer::new(key).deserialize_identifier(&ctx), Ok("foo".to_string()));
    let value = cursor.next_value(&ctx).unwrap();
    assert_eq!(Deserializer::new(value).deserialize_i32(&ctx), Ok(3));
    assert_eq!(Deserializer::new(value).deserialize_u8(&ctx), Ok(3));
    let key = cursor.next_key(&ctx).unwrap().unwrap();
    assert_eq!(Deserializer::new(key).deserialize_symbol(&ctx), Ok("bar".to_string()));
    let value = cursor.next_value(&ctx).unwrap();
    assert_eq!(Deserializer::new(value).deserialize_bool(&ctx), Ok(false));
    let _ = cursor.next_value(&ctx).unwrap();
    assert_eq!(cursor.next_key(&ctx).map(|k| k.is_none()), Ok(true));
    assert!(matches!(cursor.next_value(&ctx), Err(Error::ExpectedPairOrEndOfAssocList(_))));

    let mut broken = AssocList::new(list(&mut ctx, &[integer(1)]));
    assert!(matches!(broken.next_key(&ctx), Err(Error::ExpectedPair(_))));
    assert!(matches!(broken.next_value(&ctx), Err(Error::ExpectedPair(_))));
    assert!(matches!(broken.next_key(&ctx), Err(Error::ExpectedPair(_))));
    let off = AssocList::new(integer(1));
    assert!(matches!(off.next_key(&ctx), Err(Error::ExpectedPairOrEndOfAssocList(_))));
}

#[test]
fn the_order_of_the_entries_does_not_matter() {
    let mut ctx = Context::default();
    let foo = entry(&mut ctx, "foo", integer(3));
    let bar = entry(&mut ctx, "bar", boolean(false));
    let number = SExp::Rational(ctx.flonum(5.5f64.to_bits()));
    let baz = entry(&mut ctx, "baz", number);
    for order in [
        [foo, bar, baz],
        [foo, baz, bar],
        [bar, foo, baz],
        [bar, baz, foo],
        [baz, foo, bar],
        [baz, bar, foo],
    ] {
        let value = list(&mut ctx, &order);
        assert_eq!(Ok(foo_value()), from_sexp(&ctx, value, &foo_schema()));
    }
}
