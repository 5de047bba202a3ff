//! Rendered text. A flonum is no text yet: it stays in the text as its bits,
//! for the caller to print.

use vstd::prelude::*;

verus! {

/// One place of a rendered text: a character, or a flonum that stands there
/// as its IEEE-754 bits.
pub ghost enum Glyph {
    Char(char),
    Flonum(u64),
}

/// The glyph of the character `c`.
pub open spec fn char_glyph(c: char) -> Glyph {
    Glyph::Char(c)
}

/// The glyphs of plain characters.
pub open spec fn glyphs(text: Seq<char>) -> Seq<Glyph> {
    Seq::new(text.len(), |i: int| char_glyph(text[i]))
}

/// Whether no flonum stands in `g`.
pub open spec fn is_plain(g: Seq<Glyph>) -> bool {
    forall|i: int| 0 <= i < g.len() ==> (#[trigger] g[i]) is Char
}

/// A run of a rendered text.
#[derive(Clone, Debug, PartialEq, Eq)]
pub enum Piece {
    Text(std::string::String),
    Flonum(u64),
}

impl View for Piece {
    type V = Seq<Glyph>;

    open spec fn view(&self) -> Seq<Glyph> {
        match *self {
            Piece::Text(text) => glyphs(text@),
            Piece::Flonum(bits) => seq![Glyph::Flonum(bits)],
        }
    }
}

/// The glyphs of a sequence of pieces, one after the other.
pub open spec fn flatten(pieces: Seq<Piece>) -> Seq<Glyph>
    decreases pieces.len(),
{
    if pieces.len() == 0 {
        Seq::empty()
    } else {
        flatten(pieces.drop_last()) + pieces.last()@
    }
}

/// Whether `pieces` are cut in the one canonical way: no run of characters
/// is empty, and no two runs of characters stand side by side.
pub open spec fn canonical(pieces: Seq<Piece>) -> bool {
    &&& forall|i: int| 0 <= i < pieces.len() ==> #[trigger] filled(pieces, i)
    &&& forall|i: int| 0 <= i < pieces.len() - 1 ==> #[trigger] apart(pieces, i)
}

/// Whether the piece at `i` is no empty run of characters.
pub open spec fn filled(pieces: Seq<Piece>, i: int) -> bool {
    pieces[i] is Text ==> pieces[i]->Text_0@.len() > 0
}

/// Whether the pieces at `i` and after it are not both runs of characters.
pub open spec fn apart(pieces: Seq<Piece>, i: int) -> bool {
    !(pieces[i] is Text && pieces[i + 1] is Text)
}

/// A rendered text: its view is the sequence of its glyphs. The pieces are
/// always cut in the canonical way, so two texts with the same glyphs have
/// the same pieces.
#[derive(Debug, PartialEq, Eq)]
pub struct Text {
    pieces: Vec<Piece>,
}

impl View for Text {
    type V = Seq<Glyph>;

    closed spec fn view(&self) -> Seq<Glyph> {
        flatten(self.pieces@)
    }
}

/// The glyphs of two texts, one after the other, are the glyphs of the two
/// texts joined.
pub proof fn lemma_glyphs_concat(a: Seq<char>, b: Seq<char>)
    ensures
        glyphs(a + b) == glyphs(a) + glyphs(b),
{
}

/// One more piece adds its glyphs at the end.
pub proof fn lemma_flatten_push(pieces: Seq<Piece>, piece: Piece)
    ensures
        flatten(pieces.push(piece)) == flatten(pieces) + piece@,
{
    assert(pieces.push(piece).drop_last() =~= pieces);
}

/// The glyphs of two sequences of pieces, one after the other, are the
/// glyphs of the first and then those of the second.
pub proof fn lemma_flatten_concat(a: Seq<Piece>, b: Seq<Piece>)
    ensures
        flatten(a + b) == flatten(a) + flatten(b),
    decreases b.len(),
{
    if b.len() > 0 {
        lemma_flatten_concat(a, b.drop_last());
        assert((a + b).drop_last() =~= a + b.drop_last());
        assert(flatten(a) + (flatten(b.drop_last()) + b.last()@) =~= (flatten(a) + flatten(
            b.drop_last(),
        )) + b.last()@);
    }
}

/// A piece may follow canonical pieces where it is a flonum, or a run of
/// characters that is not empty and follows no other run.
proof fn lemma_push_keeps_canonical(pieces: Seq<Piece>, piece: Piece)
    requires
        canonical(pieces),
        piece is Text ==> piece->Text_0@.len() > 0 && (pieces.len() == 0
            || pieces.last() is Flonum),
    ensures
        canonical(pieces.push(piece)),
{
    let after = pieces.push(piece);
    assert forall|i: int| 0 <= i < after.len() implies #[trigger] filled(after, i) by {
        if i < pieces.len() {
            assert(filled(pieces, i));
        }
    }
    assert forall|i: int| 0 <= i < after.len() - 1 implies #[trigger] apart(after, i) by {
        if i + 1 < pieces.len() {
            assert(apart(pieces, i));
        }
    }
}

/// The last run of characters may grow.
proof fn lemma_extend_last(before: Seq<Piece>, after: Seq<Piece>, tail: Seq<char>)
    requires
        canonical(before),
        before.len() > 0,
        before.last() is Text,
        after.len() == before.len(),
        after.drop_last() == before.drop_last(),
        after.last() is Text,
        after.last()->Text_0@ == before.last()->Text_0@ + tail,
    ensures
        canonical(after),
        flatten(after) == flatten(before) + glyphs(tail),
{
    let n = before.len() as int;
    lemma_glyphs_concat(before.last()->Text_0@, tail);
    assert(flatten(after) =~= flatten(before) + glyphs(tail));
    assert forall|i: int| 0 <= i < n - 1 implies after[i] == before[i] by {
        assert(after.drop_last()[i] == after[i]);
        assert(before.drop_last()[i] == before[i]);
    }
    assert forall|i: int| 0 <= i < after.len() implies #[trigger] filled(after, i) by {
        assert(filled(before, i));
    }
    assert forall|i: int| 0 <= i < after.len() - 1 implies #[trigger] apart(after, i) by {
        assert(apart(before, i));
    }
}

/// Whether two pieces hold the same: the same characters, or the same
/// flonum.
pub open spec fn same_piece(p: Piece, q: Piece) -> bool {
    match (p, q) {
        (Piece::Text(s), Piece::Text(u)) => s@ == u@,
        (Piece::Flonum(x), Piece::Flonum(y)) => x == y,
        _ => false,
    }
}

/// Of two canonical sequences with the same glyphs that both end in a run
/// of characters, the last run of the first is not longer than that of the
/// second.
proof fn lemma_last_run_not_longer(a: Seq<Piece>, b: Seq<Piece>)
    requires
        canonical(a),
        canonical(b),
        flatten(a) == flatten(b),
        a.len() > 0,
        b.len() > 0,
        a.last() is Text,
        b.last() is Text,
    ensures
        a.last()->Text_0@.len() <= b.last()->Text_0@.len(),
{
    let s = a.last()->Text_0@;
    let u = b.last()->Text_0@;
    let whole = flatten(a);
    let fa = flatten(a.drop_last());
    let fb = flatten(b.drop_last());
    assert(whole == fa + glyphs(s));
    assert(whole == fb + glyphs(u));
    if s.len() > u.len() {
        // The glyph just before the last run of `b` is a character in
        // `a` and a flonum in `b`.
        let k = fb.len() - 1;
        assert(fb.len() > 0);
        assert(whole[k] == glyphs(s)[k - fa.len()]);
        assert(whole[k] is Char);
        let front = b.drop_last();
        assert(front.len() > 0);
        assert(apart(b, b.len() - 2));
        assert(front.last() == b[b.len() - 2]);
        assert(front.last() is Flonum);
        assert(fb == flatten(front.drop_last()) + front.last()@);
        assert(whole[k] == fb[k]);
        assert(fb[k] == front.last()@[0]);
    }
}

/// Two canonical sequences of pieces with the same glyphs are the same
/// pieces.
pub proof fn lemma_canonical_unique(a: Seq<Piece>, b: Seq<Piece>)
    requires
        canonical(a),
        canonical(b),
        flatten(a) == flatten(b),
    ensures
        a.len() == b.len(),
        forall|i: int| 0 <= i < a.len() ==> same_piece(#[trigger] a[i], b[i]),
    decreases a.len(),
{
    if a.len() == 0 {
        if b.len() > 0 {
            assert(filled(b, b.len() - 1));
            assert(flatten(b) == flatten(b.drop_last()) + b.last()@);
        }
    } else if b.len() == 0 {
        assert(filled(a, a.len() - 1));
        assert(flatten(a) == flatten(a.drop_last()) + a.last()@);
    } else {
        let whole = flatten(a);
        let fa = flatten(a.drop_last());
        let fb = flatten(b.drop_last());
        let la = a.last();
        let lb = b.last();
        assert(whole == fa + la@);
        assert(whole == fb + lb@);
        assert(filled(a, a.len() - 1));
        assert(filled(b, b.len() - 1));
        assert(whole.len() > 0);
        assert(whole.last() == la@.last());
        assert(whole.last() == lb@.last());
        match la {
            Piece::Flonum(x) => {
                assert(lb is Flonum);
                assert(fa =~= whole.drop_last());
                assert(fb =~= whole.drop_last());
            },
            Piece::Text(s) => {
                assert(lb is Text);
                lemma_last_run_not_longer(a, b);
                lemma_last_run_not_longer(b, a);
                let u = lb->Text_0;
                let n = s@.len() as int;
                assert(fa =~= whole.take(whole.len() - n));
                assert(fb =~= whole.take(whole.len() - n));
                assert(s@ =~= u@) by {
                    assert forall|i: int| 0 <= i < n implies s@[i] == u@[i] by {
                        assert(whole[fa.len() + i] == glyphs(s@)[i]);
                        assert(whole[fb.len() + i] == glyphs(u@)[i]);
                    }
                }
            },
        }
        lemma_drop_last_canonical(a);
        lemma_drop_last_canonical(b);
        lemma_canonical_unique(a.drop_last(), b.drop_last());
        assert forall|i: int| 0 <= i < a.len() implies same_piece(#[trigger] a[i], b[i]) by {
            if i < a.len() - 1 {
                assert(a[i] == a.drop_last()[i]);
                assert(b[i] == b.drop_last()[i]);
            }
        }
    }
}

/// Canonical pieces without the last are canonical.
proof fn lemma_drop_last_canonical(pieces: Seq<Piece>)
    requires
        canonical(pieces),
        pieces.len() > 0,
    ensures
        canonical(pieces.drop_last()),
{
    let front = pieces.drop_last();
    assert forall|i: int| 0 <= i < front.len() implies #[trigger] filled(front, i) by {
        assert(filled(pieces, i));
    }
    assert forall|i: int| 0 <= i < front.len() - 1 implies #[trigger] apart(front, i) by {
        assert(apart(pieces, i));
    }
}

/// `String::push` of `std`: appends the one character `c` to `s`.
#[verifier::external_body]
pub(crate) fn push_char(s: &mut std::string::String, c: char)
    ensures
        final(s)@ == old(s)@.push(c),
{
    s.push(c)
}

/// The decimal digit for `d`, which is below ten.
pub open spec fn digit(d: int) -> char {
    (48 + d) as char
}

/// The decimal digits of `n`, the most significant first.
pub open spec fn digits(n: nat) -> Seq<char>
    decreases n,
{
    if n < 10 {
        seq![digit(n as int)]
    } else {
        digits(n / 10).push(digit(n as int % 10))
    }
}

/// `n` in decimal, with a minus sign where it is negative.
pub open spec fn decimal_text(n: int) -> Seq<char> {
    if n < 0 {
        seq!['-'] + digits((-n) as nat)
    } else {
        digits(n as nat)
    }
}

fn push_digits(out: &mut std::string::String, n: u64)
    ensures
        final(out)@ == old(out)@ + digits(n as nat),
    decreases n,
{
    if n >= 10 {
        push_digits(out, n / 10);
    }
    let d: u8 = (n % 10) as u8;
    let c: char = (48 + d) as char;
    push_char(out, c);
}

/// Writes `n` in decimal.
pub fn decimal(n: i64) -> (out: std::string::String)
    ensures
        out@ == decimal_text(n as int),
{
    let mut out = std::string::String::new();
    if n < 0 {
        push_char(&mut out, '-');
        let magnitude: u64 = if n == i64::MIN {
            0x8000_0000_0000_0000
        } else {
            (-n) as u64
        };
        push_digits(&mut out, magnitude);
    } else {
        push_digits(&mut out, n as u64);
    }
    out
}

impl Text {
    /// The invariant of a text: its pieces are cut in the canonical way.
    #[verifier::type_invariant]
    pub closed spec fn is_canonical(&self) -> bool {
        canonical(self.pieces@)
    }

    /// The pieces of the text, as contracts see them.
    pub closed spec fn spec_pieces(&self) -> Seq<Piece> {
        self.pieces@
    }

    /// Two texts with the same glyphs have the same pieces, so they are
    /// equal as values.
    pub proof fn lemma_same_glyphs_same_pieces(self, other: Text)
        requires
            self.is_canonical(),
            other.is_canonical(),
            self@ == other@,
        ensures
            self.spec_pieces().len() == other.spec_pieces().len(),
            forall|i: int|
                0 <= i < self.spec_pieces().len() ==> same_piece(
                    #[trigger] self.spec_pieces()[i],
                    other.spec_pieces()[i],
                ),
    {
        lemma_canonical_unique(self.pieces@, other.pieces@);
    }

    /// The empty text.
    pub fn new() -> (text: Text)
        ensures
            text@ == Seq::<Glyph>::empty(),
    {
        Text { pieces: Vec::new() }
    }

    /// The text of the characters of `s`.
    pub fn from_str(s: &str) -> (text: Text)
        ensures
            text@ == glyphs(s@),
    {
        let mut text = Text::new();
        text.push_str(s);
        text
    }

    /// The pieces of the text: runs of characters and flonums, by turns.
    pub fn pieces(&self) -> (pieces: &Vec<Piece>)
        ensures
            pieces@ == self.spec_pieces(),
            flatten(pieces@) == self@,
            canonical(pieces@),
    {
        proof {
            use_type_invariant(self);
        }
        &self.pieces
    }

    /// Appends the characters of `s`.
    pub fn push_str(&mut self, s: &str)
        ensures
            final(self)@ == old(self)@ + glyphs(s@),
    {
        if s.is_empty() {
            assert(self@ + glyphs(s@) =~= self@);
            return ;
        }
        proof {
            use_type_invariant(&*self);
        }
        let mut pieces: Vec<Piece> = Vec::new();
        core::mem::swap(&mut self.pieces, &mut pieces);
        let ghost before = pieces@;
        match pieces.pop() {
            Some(Piece::Text(run)) => {
                let mut run = run;
                run.append(s);
                pieces.push(Piece::Text(run));
                proof {
                    assert(pieces@.drop_last() =~= before.drop_last());
                    lemma_extend_last(before, pieces@, s@);
                }
            },
            Some(Piece::Flonum(bits)) => {
                pieces.push(Piece::Flonum(bits));
                assert(pieces@ =~= before);
                let piece = Piece::Text(s.to_owned());
                proof {
                    lemma_flatten_push(before, piece);
                    lemma_push_keeps_canonical(before, piece);
                }
                pieces.push(piece);
            },
            None => {
                let piece = Piece::Text(s.to_owned());
                proof {
                    lemma_flatten_push(before, piece);
                    lemma_push_keeps_canonical(before, piece);
                }
                pieces.push(piece);
            },
        }
        core::mem::swap(&mut self.pieces, &mut pieces);
    }

    /// Appends the one character `c`.
    pub fn push(&mut self, c: char)
        ensures
            final(self)@ == old(self)@.push(Glyph::Char(c)),
    {
        let mut s = std::string::String::new();
        push_char(&mut s, c);
        self.push_str(s.as_str());
        assert(old(self)@ + glyphs(s@) =~= old(self)@.push(Glyph::Char(c)));
    }

    /// Appends a flonum, as its bits.
    pub fn push_flonum(&mut self, bits: u64)
        ensures
            final(self)@ == old(self)@.push(Glyph::Flonum(bits)),
    {
        proof {
            use_type_invariant(&*self);
        }
        let mut pieces: Vec<Piece> = Vec::new();
        core::mem::swap(&mut self.pieces, &mut pieces);
        let piece = Piece::Flonum(bits);
        proof {
            lemma_flatten_push(pieces@, piece);
            lemma_push_keeps_canonical(pieces@, piece);
            assert(flatten(pieces@) + seq![Glyph::Flonum(bits)] =~= flatten(pieces@).push(
                Glyph::Flonum(bits),
            ));
        }
        pieces.push(piece);
        core::mem::swap(&mut self.pieces, &mut pieces);
    }

    /// A copy of the text.
    pub fn duplicate(&self) -> (out: Text)
        ensures
            out@ == self@,
    {
        let mut out = Text::new();
        let n: usize = self.pieces.len();
        let mut i: usize = 0;
        while i < n
            invariant
                n == self.pieces@.len(),
                i <= n,
                out@ == flatten(self.pieces@.take(i as int)),
            decreases n - i,
        {
            proof {
                let before = self.pieces@.take(i as int);
                assert(self.pieces@.take(i + 1) =~= before.push(self.pieces@[i as int]));
                lemma_flatten_push(before, self.pieces@[i as int]);
            }
            match &self.pieces[i] {
                Piece::Text(t) => {
                    out.push_str(t.as_str());
                },
                Piece::Flonum(bits) => {
                    out.push_flonum(*bits);
                },
            }
            i = i + 1;
        }
        assert(self.pieces@.take(n as int) =~= self.pieces@);
        out
    }

    /// The text as a string, where no flonum stands in it.
    pub fn as_plain(&self) -> (out: Option<std::string::String>)
        ensures
            out is Some <==> is_plain(self@),
            out is Some ==> glyphs(out->Some_0@) == self@,
    {
        let mut s = std::string::String::new();
        let n: usize = self.pieces.len();
        let mut i: usize = 0;
        while i < n
            invariant
                n == self.pieces@.len(),
                i <= n,
                glyphs(s@) == flatten(self.pieces@.take(i as int)),
            decreases n - i,
        {
            let ghost before = self.pieces@.take(i as int);
            proof {
                assert(self.pieces@.take(i + 1) =~= before.push(self.pieces@[i as int]));
                lemma_flatten_push(before, self.pieces@[i as int]);
            }
            match &self.pieces[i] {
                Piece::Text(t) => {
                    s.append(t.as_str());
                },
                Piece::Flonum(bits) => {
                    proof {
                        let here = flatten(before).len() as int;
                        lemma_flatten_concat(
                            self.pieces@.take(i + 1),
                            self.pieces@.skip(i + 1),
                        );
                        assert(self.pieces@.take(i + 1) + self.pieces@.skip(i + 1)
                            =~= self.pieces@);
                        assert(self@[here] == Glyph::Flonum(*bits));
                    }
                    return None;
                },
            }
            i = i + 1;
        }
        assert(self.pieces@.take(n as int) =~= self.pieces@);
        Some(s)
    }
}

} // verus!
