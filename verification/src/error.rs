//! The failures that loading and interpreting can report.

use vstd::prelude::*;

verus! {

/// Why a class file was rejected, or why its interpretation stopped.
///
/// Nothing is retried and nothing is loaded in part: the first failure ends
/// the operation.
#[derive(Debug, PartialEq, Eq)]
pub enum DecodeError {
    /// The buffer does not start with the bytes `CA FE BA BE`.
    BadMagic,
    /// The buffer, or a method's code, ends inside a field.
    Truncated,
    /// A constant-pool entry starts with a tag that is not known.
    UnsupportedConstantTag(u8),
    /// The bytes of a text constant are not valid UTF-8.
    InvalidUtf8,
    /// An index that must name a text constant names something else, or
    /// nothing.
    ExpectedUtf8,
    /// An index that must name a class, a name-and-type pair, a field or a
    /// method reference names no constant of that kind.
    MissingConstantPoolEntry,
    /// An attribute whose name is none of `Code`, `LineNumberTable`,
    /// `SourceFile`.
    UnsupportedAttribute(String),
    /// A part of the format that is not implemented: `interfaces`, `fields`.
    UnsupportedFeature(String),
    /// An instruction outside the implemented set.
    UnsupportedOpcode(u8),
    /// A call of anything but the constructor of `java/lang/Object`.
    UnsupportedDynamicDispatch,
    /// The class has no method of this name.
    MissingMethod(String),
    /// The method has no `Code` attribute.
    MissingCode,
    /// An instruction needs an object reference on top of the operand stack
    /// and finds an integer, or an empty stack.
    ExpectedReference,
}

/// The mathematical value of a [`DecodeError`]: texts are character
/// sequences.
pub enum DecodeErrorView {
    BadMagic,
    Truncated,
    UnsupportedConstantTag(u8),
    InvalidUtf8,
    ExpectedUtf8,
    MissingConstantPoolEntry,
    UnsupportedAttribute(Seq<char>),
    UnsupportedFeature(Seq<char>),
    UnsupportedOpcode(u8),
    UnsupportedDynamicDispatch,
    MissingMethod(Seq<char>),
    MissingCode,
    ExpectedReference,
}

impl View for DecodeError {
    type V = DecodeErrorView;

    open spec fn view(&self) -> DecodeErrorView {
        match self {
            DecodeError::BadMagic => DecodeErrorView::BadMagic,
            DecodeError::Truncated => DecodeErrorView::Truncated,
            DecodeError::UnsupportedConstantTag(tag) => DecodeErrorView::UnsupportedConstantTag(
                *tag,
            ),
            DecodeError::InvalidUtf8 => DecodeErrorView::InvalidUtf8,
            DecodeError::ExpectedUtf8 => DecodeErrorView::ExpectedUtf8,
            DecodeError::MissingConstantPoolEntry => DecodeErrorView::MissingConstantPoolEntry,
            DecodeError::UnsupportedAttribute(name) => DecodeErrorView::UnsupportedAttribute(
                name@,
            ),
            DecodeError::UnsupportedFeature(what) => DecodeErrorView::UnsupportedFeature(what@),
            DecodeError::UnsupportedOpcode(opcode) => DecodeErrorView::UnsupportedOpcode(*opcode),
            DecodeError::UnsupportedDynamicDispatch => DecodeErrorView::UnsupportedDynamicDispatch,
            DecodeError::MissingMethod(name) => DecodeErrorView::MissingMethod(name@),
            DecodeError::MissingCode => DecodeErrorView::MissingCode,
            DecodeError::ExpectedReference => DecodeErrorView::ExpectedReference,
        }
    }
}

/// What a decoding step yields: the value's model and the number of bytes it
/// occupies, or the failure.
pub type Decoded<V> = Result<(V, nat), DecodeErrorView>;

/// `r`, with the cursor moved from `before` to `after`, is what `expected`
/// prescribes: on success the value and a cursor advanced by exactly the
/// value's width, on failure that failure and an unmoved cursor.
pub open spec fn agrees<T: View>(
    r: Result<T, DecodeError>,
    before: usize,
    after: usize,
    expected: Decoded<T::V>,
) -> bool {
    match expected {
        Ok((value, width)) => r matches Ok(v) && v@ == value && after == before + width,
        Err(failure) => r matches Err(e) && e@ == failure && after == before,
    }
}

/// `r` is what `expected` prescribes, for an operation without a cursor.
pub open spec fn reports<T: View>(
    r: Result<T, DecodeError>,
    expected: Result<T::V, DecodeErrorView>,
) -> bool {
    match expected {
        Ok(value) => r matches Ok(v) && v@ == value,
        Err(failure) => r matches Err(e) && e@ == failure,
    }
}

} // verus!
