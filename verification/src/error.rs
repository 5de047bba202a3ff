//! What can go wrong when a value is decoded.

use vstd::prelude::*;
use crate::text::{glyphs, Glyph, Text};

verus! {

/// A failed decoding. The first failure ends the whole decoding.
#[derive(Debug, PartialEq)]
pub enum Error {
    /// The target takes whatever the value holds, which is not supported.
    DeserializeAnyNotSupported,
    /// The target skips a value, which is not supported.
    DeserializeIgnoredAnyNotSupported,
    /// The target is a sequence, which is not supported.
    DeserializeSeqNotSupported,
    /// The target is optional, which is not supported.
    DeserializeOptionNotSupported,
    /// The target is one of several variants, which is not supported.
    DeserializeEnumNotSupported,
    /// The target is a buffer of bytes, which is not supported.
    DeserializeBytesNotSupported,
    Message(std::string::String),
    /// A boolean was expected; the payload is the printed form of what was
    /// there. The same holds of the other variants that carry a text.
    ExpectedBoolean(Text),
    ExpectedInteger(Text),
    /// The integer does not fit the target.
    IntegerTooLargeForBytes(core::num::TryFromIntError),
    ExpectedRational(Text),
    ExpectedSymbol(Text),
    ExpectedChar(Text),
    ExpectedString(Text),
    ExpectedPairOrEndOfAssocList(Text),
    ExpectedPair(Text),
}

/// An error as contracts see it.
pub ghost enum ErrorView {
    DeserializeAnyNotSupported,
    DeserializeIgnoredAnyNotSupported,
    DeserializeSeqNotSupported,
    DeserializeOptionNotSupported,
    DeserializeEnumNotSupported,
    DeserializeBytesNotSupported,
    Message(Seq<char>),
    ExpectedBoolean(Seq<Glyph>),
    ExpectedInteger(Seq<Glyph>),
    IntegerTooLargeForBytes,
    ExpectedRational(Seq<Glyph>),
    ExpectedSymbol(Seq<Glyph>),
    ExpectedChar(Seq<Glyph>),
    ExpectedString(Seq<Glyph>),
    ExpectedPairOrEndOfAssocList(Seq<Glyph>),
    ExpectedPair(Seq<Glyph>),
}

impl View for Error {
    type V = ErrorView;

    open spec fn view(&self) -> ErrorView {
        match *self {
            Error::DeserializeAnyNotSupported => ErrorView::DeserializeAnyNotSupported,
            Error::DeserializeIgnoredAnyNotSupported => ErrorView::DeserializeIgnoredAnyNotSupported,
            Error::DeserializeSeqNotSupported => ErrorView::DeserializeSeqNotSupported,
            Error::DeserializeOptionNotSupported => ErrorView::DeserializeOptionNotSupported,
            Error::DeserializeEnumNotSupported => ErrorView::DeserializeEnumNotSupported,
            Error::DeserializeBytesNotSupported => ErrorView::DeserializeBytesNotSupported,
            Error::Message(msg) => ErrorView::Message(msg@),
            Error::ExpectedBoolean(found) => ErrorView::ExpectedBoolean(found@),
            Error::ExpectedInteger(found) => ErrorView::ExpectedInteger(found@),
            Error::IntegerTooLargeForBytes(_) => ErrorView::IntegerTooLargeForBytes,
            Error::ExpectedRational(found) => ErrorView::ExpectedRational(found@),
            Error::ExpectedSymbol(found) => ErrorView::ExpectedSymbol(found@),
            Error::ExpectedChar(found) => ErrorView::ExpectedChar(found@),
            Error::ExpectedString(found) => ErrorView::ExpectedString(found@),
            Error::ExpectedPairOrEndOfAssocList(found) => ErrorView::ExpectedPairOrEndOfAssocList(
                found@,
            ),
            Error::ExpectedPair(found) => ErrorView::ExpectedPair(found@),
        }
    }
}

impl ErrorView {
    /// Whether the error says that the value has not the shape of an
    /// association list.
    pub open spec fn is_structural(self) -> bool {
        self is ExpectedPairOrEndOfAssocList || self is ExpectedPair || self is ExpectedSymbol
    }

    /// What the error says, as a text.
    pub open spec fn description(self) -> Seq<Glyph> {
        match self {
            ErrorView::DeserializeAnyNotSupported => glyphs("Deserialize any not supported"@),
            ErrorView::DeserializeIgnoredAnyNotSupported => glyphs(
                "Deserialize ignore any not supported"@,
            ),
            ErrorView::DeserializeSeqNotSupported => glyphs("Deserialize seq not supported"@),
            ErrorView::DeserializeOptionNotSupported => glyphs(
                "Deserialize option not supported"@,
            ),
            ErrorView::DeserializeEnumNotSupported => glyphs("Deserialize enum not supported"@),
            ErrorView::DeserializeBytesNotSupported => glyphs("Deserialize bytes not supported"@),
            ErrorView::Message(msg) => glyphs(msg),
            ErrorView::ExpectedBoolean(found) => found,
            ErrorView::ExpectedInteger(found) => found,
            ErrorView::IntegerTooLargeForBytes => glyphs("Integer too large for bytes"@),
            ErrorView::ExpectedRational(found) => found,
            ErrorView::ExpectedSymbol(found) => found,
            ErrorView::ExpectedChar(found) => found,
            ErrorView::ExpectedString(found) => found,
            ErrorView::ExpectedPairOrEndOfAssocList(found) => found,
            ErrorView::ExpectedPair(found) => found,
        }
    }
}

impl Error {
    /// What the error says: for a mismatch the printed form of the value
    /// that was found, for the others a fixed sentence.
    pub fn description(&self) -> (out: Text)
        ensures
            out@ == self@.description(),
    {
        let mut out = Text::new();
        match self {
            Error::DeserializeAnyNotSupported => out.push_str("Deserialize any not supported"),
            Error::DeserializeIgnoredAnyNotSupported => out.push_str(
                "Deserialize ignore any not supported",
            ),
            Error::DeserializeSeqNotSupported => out.push_str("Deserialize seq not supported"),
            Error::DeserializeOptionNotSupported => out.push_str(
                "Deserialize option not supported",
            ),
            Error::DeserializeEnumNotSupported => out.push_str("Deserialize enum not supported"),
            Error::DeserializeBytesNotSupported => out.push_str("Deserialize bytes not supported"),
            Error::Message(msg) => out.push_str(msg.as_str()),
            Error::IntegerTooLargeForBytes(_) => out.push_str("Integer too large for bytes"),
            Error::ExpectedBoolean(found) => {
                return found.duplicate();
            },
            Error::ExpectedInteger(found) => {
                return found.duplicate();
            },
            Error::ExpectedRational(found) => {
                return found.duplicate();
            },
            Error::ExpectedSymbol(found) => {
                return found.duplicate();
            },
            Error::ExpectedChar(found) => {
                return found.duplicate();
            },
            Error::ExpectedString(found) => {
                return found.duplicate();
            },
            Error::ExpectedPairOrEndOfAssocList(found) => {
                return found.duplicate();
            },
            Error::ExpectedPair(found) => {
                return found.duplicate();
            },
        }
        out
    }

    /// The failed conversion under the error, where there is one.
    pub fn cause(&self) -> (out: Option<core::num::TryFromIntError>)
        ensures
            out is Some <==> self@ is IntegerTooLargeForBytes,
            out is Some ==> *self == Error::IntegerTooLargeForBytes(out->Some_0),
    {
        match self {
            Error::IntegerTooLargeForBytes(cause) => Some(*cause),
            _ => None,
        }
    }
}

} // verus!
