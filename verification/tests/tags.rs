use chibi_scheme::tags::{
    sexp_booleanp, sexp_charp, sexp_fixnump, sexp_make_character, sexp_make_fixnum,
    sexp_make_immediate, sexp_unbox_character, sexp_unbox_fixnum, SEXP_FALSE, SEXP_MAX_FIXNUM,
    SEXP_MIN_FIXNUM, SEXP_NULL, SEXP_TRUE, SEXP_VOID,
};

#[test]
fn immediates_have_their_words() {
    assert_eq!(sexp_make_immediate(0), SEXP_FALSE);
    assert_eq!(sexp_make_immediate(1), SEXP_TRUE);
    assert_eq!(sexp_make_immediate(2), SEXP_NULL);
    assert_eq!(sexp_make_immediate(4), SEXP_VOID);
    assert_eq!(sexp_make_immediate(1), 0x13e);
}

#[test]
fn fixnum_round_trip() {
    assert_eq!(sexp_make_fixnum(4), 9);
    assert_eq!(sexp_make_fixnum(-1), u64::MAX);
    assert_eq!(sexp_unbox_fixnum(sexp_make_fixnum(-1)), -1);
    assert_eq!(sexp_unbox_fixnum(sexp_make_fixnum(SEXP_MAX_FIXNUM)), SEXP_MAX_FIXNUM);
    assert_eq!(sexp_unbox_fixnum(sexp_make_fixnum(SEXP_MIN_FIXNUM)), SEXP_MIN_FIXNUM);
    assert_eq!(sexp_unbox_fixnum(sexp_make_fixnum(SEXP_MAX_FIXNUM + 1)), SEXP_MIN_FIXNUM);
    assert!(sexp_fixnump(sexp_make_fixnum(0)));
    assert!(!sexp_fixnump(SEXP_TRUE));
}

#[test]
fn character_round_trip() {
    assert_eq!(sexp_make_character(b'c'), 0x631e);
    assert_eq!(sexp_unbox_character(sexp_make_character(b'c')), b'c');
    assert!(sexp_charp(sexp_make_character(0)));
    assert!(!sexp_booleanp(sexp_make_character(0)));
}
