//! The constant pool: the table of names, descriptors and symbolic
//! references that the rest of a class file points into by index.
//!
//! An entry starts with a one-byte tag that tells its kind and thereby its
//! width. Decoding an entry moves the cursor by exactly that width.

use crate::error::{agrees, DecodeError, DecodeErrorView, Decoded};
use crate::reader::{in_bounds, read_slice, read_u16, read_u8, u16_at};
use crate::text::{decimal, push_decimal};
use std::collections::HashMap;
use vstd::prelude::*;
use vstd::string::StringExecFns;
use vstd::string::StringSliceAdditionalSpecFns;
use vstd::utf8::{decode_utf8, encode_utf8, valid_utf8};

verus! {

broadcast use vstd::std_specs::hash::group_hash_axioms;

/// Tag of a text constant.
pub const TAG_UTF8: u8 = 0x01;

/// Tag of a class constant.
pub const TAG_CLASS: u8 = 0x07;

/// Tag of a string constant.
pub const TAG_STRING: u8 = 0x08;

/// Tag of a field reference.
pub const TAG_FIELD_REF: u8 = 0x09;

/// Tag of a method reference.
pub const TAG_METHOD_REF: u8 = 0x0a;

/// Tag of a name-and-type pair.
pub const TAG_NAME_AND_TYPE: u8 = 0x0c;

/// One entry of the constant pool.
#[derive(Debug, Clone, Copy, PartialEq, Eq)]
pub enum ConstantPoolEntry<'a> {
    Utf8(Utf8Constant<'a>),
    Class(ClassConstant),
    String(StringConstant),
    FieldRef(FieldRefConstant),
    MethodRef(MethodRefConstant),
    NameAndType(NameAndTypeConstant),
}

/// A class, named by the index of a text constant.
#[derive(Debug, Clone, Copy, PartialEq, Eq)]
pub struct ClassConstant {
    pub name_idx: u16,
}

/// A string literal, given by the index of a text constant.
#[derive(Debug, Clone, Copy, PartialEq, Eq)]
pub struct StringConstant {
    pub string_idx: u16,
}

/// A field of a class: the indices of a class constant and of a
/// name-and-type pair.
#[derive(Debug, Clone, Copy, PartialEq, Eq)]
pub struct FieldRefConstant {
    pub class_idx: u16,
    pub name_and_type_idx: u16,
}

/// A method of a class: the indices of a class constant and of a
/// name-and-type pair.
#[derive(Debug, Clone, Copy, PartialEq, Eq)]
pub struct MethodRefConstant {
    pub class_idx: u16,
    pub name_and_type_idx: u16,
}

/// A name and a descriptor, each the index of a text constant.
#[derive(Debug, Clone, Copy, PartialEq, Eq)]
pub struct NameAndTypeConstant {
    pub name_idx: u16,
    pub descriptor_idx: u16,
}

/// A text. The string borrows the bytes of the buffer it was decoded from
/// and lives no longer than that buffer.
#[derive(Debug, Clone, Copy, PartialEq, Eq)]
pub struct Utf8Constant<'a> {
    pub utf8_str: &'a str,
}

/// The mathematical value of a [`ConstantPoolEntry`].
pub enum ConstantView {
    Utf8(Seq<char>),
    Class(ClassConstant),
    String(StringConstant),
    FieldRef(FieldRefConstant),
    MethodRef(MethodRefConstant),
    NameAndType(NameAndTypeConstant),
}

impl View for ClassConstant {
    type V = ClassConstant;

    open spec fn view(&self) -> ClassConstant {
        *self
    }
}

impl View for StringConstant {
    type V = StringConstant;

    open spec fn view(&self) -> StringConstant {
        *self
    }
}

impl View for FieldRefConstant {
    type V = FieldRefConstant;

    open spec fn view(&self) -> FieldRefConstant {
        *self
    }
}

impl View for MethodRefConstant {
    type V = MethodRefConstant;

    open spec fn view(&self) -> MethodRefConstant {
        *self
    }
}

impl View for NameAndTypeConstant {
    type V = NameAndTypeConstant;

    open spec fn view(&self) -> NameAndTypeConstant {
        *self
    }
}

impl<'a> View for Utf8Constant<'a> {
    type V = Seq<char>;

    open spec fn view(&self) -> Seq<char> {
        self.utf8_str@
    }
}

impl<'a> View for ConstantPoolEntry<'a> {
    type V = ConstantView;

    open spec fn view(&self) -> ConstantView {
        match self {
            ConstantPoolEntry::Utf8(c) => ConstantView::Utf8(c@),
            ConstantPoolEntry::Class(c) => ConstantView::Class(*c),
            ConstantPoolEntry::String(c) => ConstantView::String(*c),
            ConstantPoolEntry::FieldRef(c) => ConstantView::FieldRef(*c),
            ConstantPoolEntry::MethodRef(c) => ConstantView::MethodRef(*c),
            ConstantPoolEntry::NameAndType(c) => ConstantView::NameAndType(*c),
        }
    }
}

/// The mathematical value of a pool: each index with the value of its entry.
pub open spec fn pool_view<'a>(pool: Map<u16, ConstantPoolEntry<'a>>) -> Map<u16, ConstantView> {
    Map::new(|i: u16| pool.contains_key(i), |i: u16| pool[i]@)
}

/// A text constant at `at`: the tag, a 16-bit length `n`, then `n` bytes of
/// UTF-8.
pub open spec fn spec_utf8_constant(bytes: Seq<u8>, at: int) -> Decoded<Seq<char>> {
    if !in_bounds(bytes, at, 3) {
        Err(DecodeErrorView::Truncated)
    } else if !in_bounds(bytes, at + 3, u16_at(bytes, at + 1) as int) {
        Err(DecodeErrorView::Truncated)
    } else {
        let n = u16_at(bytes, at + 1) as int;
        let text = bytes.subrange(at + 3, at + 3 + n);
        if valid_utf8(text) {
            Ok((decode_utf8(text), (3 + n) as nat))
        } else {
            Err(DecodeErrorView::InvalidUtf8)
        }
    }
}

/// The encoding of a text constant: the tag, the length of the text's
/// UTF-8 bytes in 16 bits, and the bytes.
pub open spec fn utf8_constant_bytes(text: Seq<char>) -> Seq<u8>
    recommends
        encode_utf8(text).len() <= 0xffff,
{
    let n = encode_utf8(text).len();
    seq![TAG_UTF8, (n / 0x100) as u8, (n % 0x100) as u8] + encode_utf8(text)
}

/// A text constant that decodes has exactly as many bytes of text as its
/// length field declares, they are the bytes behind the length field, and
/// it is three bytes wider than its text.
pub proof fn lemma_utf8_constant_width(bytes: Seq<u8>, at: int)
    ensures
        spec_utf8_constant(bytes, at) matches Ok((text, width)) ==> {
            let n = u16_at(bytes, at + 1) as int;
            &&& encode_utf8(text) == bytes.subrange(at + 3, at + 3 + n)
            &&& encode_utf8(text).len() == n
            &&& width == 3 + n
        },
{
    broadcast use vstd::utf8::decode_utf8_encode_utf8;

}

/// Round trip: a text whose UTF-8 bytes fit a 16-bit length decodes from
/// its encoding to itself, whatever follows the encoding, and the width is
/// the whole encoding.
pub proof fn lemma_utf8_constant_round_trip(text: Seq<char>, rest: Seq<u8>)
    requires
        encode_utf8(text).len() <= 0xffff,
    ensures
        spec_utf8_constant(utf8_constant_bytes(text) + rest, 0) == Ok::<
            (Seq<char>, nat),
            DecodeErrorView,
        >((text, 3 + encode_utf8(text).len())),
{
    broadcast use vstd::utf8::encode_utf8_valid_utf8, vstd::utf8::encode_utf8_decode_utf8;

    let n = encode_utf8(text).len();
    let bytes = utf8_constant_bytes(text) + rest;
    assert(bytes[1] == (n / 0x100) as u8);
    assert(bytes[2] == (n % 0x100) as u8);
    assert(u16_at(bytes, 1) == n);
    assert(bytes.subrange(3, 3 + n as int) =~= encode_utf8(text));
}

/// A class constant at `at`: the tag, then the 16-bit index of its name.
pub open spec fn spec_class_constant(bytes: Seq<u8>, at: int) -> Decoded<ClassConstant> {
    if in_bounds(bytes, at, 3) {
        Ok((ClassConstant { name_idx: u16_at(bytes, at + 1) }, 3))
    } else {
        Err(DecodeErrorView::Truncated)
    }
}

/// A string constant at `at`: the tag, then the 16-bit index of its text.
pub open spec fn spec_string_constant(bytes: Seq<u8>, at: int) -> Decoded<StringConstant> {
    if in_bounds(bytes, at, 3) {
        Ok((StringConstant { string_idx: u16_at(bytes, at + 1) }, 3))
    } else {
        Err(DecodeErrorView::Truncated)
    }
}

/// A field reference at `at`: the tag, then two 16-bit indices.
pub open spec fn spec_field_ref_constant(bytes: Seq<u8>, at: int) -> Decoded<FieldRefConstant> {
    if in_bounds(bytes, at, 5) {
        Ok(
            (
                FieldRefConstant {
                    class_idx: u16_at(bytes, at + 1),
                    name_and_type_idx: u16_at(bytes, at + 3),
                },
                5,
            ),
        )
    } else {
        Err(DecodeErrorView::Truncated)
    }
}

/// A method reference at `at`: the tag, then two 16-bit indices.
pub open spec fn spec_method_ref_constant(bytes: Seq<u8>, at: int) -> Decoded<MethodRefConstant> {
    if in_bounds(bytes, at, 5) {
        Ok(
            (
                MethodRefConstant {
                    class_idx: u16_at(bytes, at + 1),
                    name_and_type_idx: u16_at(bytes, at + 3),
                },
                5,
            ),
        )
    } else {
        Err(DecodeErrorView::Truncated)
    }
}

/// A name-and-type pair at `at`: the tag, then two 16-bit indices.
pub open spec fn spec_name_and_type_constant(bytes: Seq<u8>, at: int) -> Decoded<
    NameAndTypeConstant,
> {
    if in_bounds(bytes, at, 5) {
        Ok(
            (
                NameAndTypeConstant {
                    name_idx: u16_at(bytes, at + 1),
                    descriptor_idx: u16_at(bytes, at + 3),
                },
                5,
            ),
        )
    } else {
        Err(DecodeErrorView::Truncated)
    }
}

/// Puts the value of a decoded constant into the pool's entry type.
pub open spec fn tagged<V>(decoded: Decoded<V>, wrap: spec_fn(V) -> ConstantView) -> Decoded<
    ConstantView,
> {
    match decoded {
        Ok((value, width)) => Ok((wrap(value), width)),
        Err(failure) => Err(failure),
    }
}

/// The pool entry at `at`, whose kind the byte at `at` tells.
pub open spec fn spec_constant(bytes: Seq<u8>, at: int) -> Decoded<ConstantView> {
    if !in_bounds(bytes, at, 1) {
        Err(DecodeErrorView::Truncated)
    } else if bytes[at] == TAG_UTF8 {
        tagged(spec_utf8_constant(bytes, at), |c| ConstantView::Utf8(c))
    } else if bytes[at] == TAG_CLASS {
        tagged(spec_class_constant(bytes, at), |c| ConstantView::Class(c))
    } else if bytes[at] == TAG_STRING {
        tagged(spec_string_constant(bytes, at), |c| ConstantView::String(c))
    } else if bytes[at] == TAG_FIELD_REF {
        tagged(spec_field_ref_constant(bytes, at), |c| ConstantView::FieldRef(c))
    } else if bytes[at] == TAG_METHOD_REF {
        tagged(spec_method_ref_constant(bytes, at), |c| ConstantView::MethodRef(c))
    } else if bytes[at] == TAG_NAME_AND_TYPE {
        tagged(spec_name_and_type_constant(bytes, at), |c| ConstantView::NameAndType(c))
    } else {
        Err(DecodeErrorView::UnsupportedConstantTag(bytes[at]))
    }
}

/// The pool made of the `entries` constants that follow each other from
/// `at` on. They get the indices 1 to `entries`.
pub open spec fn spec_constant_pool(bytes: Seq<u8>, at: int, entries: nat) -> Decoded<
    Map<u16, ConstantView>,
>
    decreases entries,
{
    if entries == 0 {
        Ok((Map::empty(), 0))
    } else {
        match spec_constant_pool(bytes, at, (entries - 1) as nat) {
            Err(failure) => Err(failure),
            Ok((pool, width)) => match spec_constant(bytes, at + width) {
                Err(failure) => Err(failure),
                Ok((entry, w)) => Ok((pool.insert(entries as u16, entry), width + w)),
            },
        }
    }
}

/// The printable summary of an entry: its kind, and its fields in square
/// brackets.
pub open spec fn spec_constant_text(entry: ConstantView) -> Seq<char> {
    match entry {
        ConstantView::Utf8(text) => "Utf8Constant[utf8_str=\""@ + text + "\"]"@,
        ConstantView::Class(c) => "ClassConstant[name_index="@ + decimal(c.name_idx as nat)
            + "]"@,
        ConstantView::String(c) => "StringConstant[string_index="@ + decimal(
            c.string_idx as nat,
        ) + "]"@,
        ConstantView::FieldRef(c) => "FieldRefConstant[class_idx="@ + decimal(c.class_idx as nat)
            + ", name_and_type_idx="@ + decimal(c.name_and_type_idx as nat) + "]"@,
        ConstantView::MethodRef(c) => "MethodRefConstant[class_idx="@ + decimal(
            c.class_idx as nat,
        ) + ", name_and_type_idx="@ + decimal(c.name_and_type_idx as nat) + "]"@,
        ConstantView::NameAndType(c) => "NameAndTypeConstant[name_idx="@ + decimal(
            c.name_idx as nat,
        ) + ", descriptor_idx="@ + decimal(c.descriptor_idx as nat) + "]"@,
    }
}

impl<'a> ConstantPoolEntry<'a> {
    /// The printable summary of the entry.
    pub fn to_string(&self) -> (s: String)
        ensures
            s@ == spec_constant_text(self@),
    {
        let mut s = String::new();
        match self {
            ConstantPoolEntry::Utf8(c) => {
                s.append("Utf8Constant[utf8_str=\"");
                s.append(c.utf8_str);
                s.append("\"]");
            },
            ConstantPoolEntry::Class(c) => {
                push_decimal(&mut s, "ClassConstant[name_index=", c.name_idx as u64);
                s.append("]");
            },
            ConstantPoolEntry::String(c) => {
                push_decimal(&mut s, "StringConstant[string_index=", c.string_idx as u64);
                s.append("]");
            },
            ConstantPoolEntry::FieldRef(c) => {
                push_decimal(&mut s, "FieldRefConstant[class_idx=", c.class_idx as u64);
                push_decimal(&mut s, ", name_and_type_idx=", c.name_and_type_idx as u64);
                s.append("]");
            },
            ConstantPoolEntry::MethodRef(c) => {
                push_decimal(&mut s, "MethodRefConstant[class_idx=", c.class_idx as u64);
                push_decimal(&mut s, ", name_and_type_idx=", c.name_and_type_idx as u64);
                s.append("]");
            },
            ConstantPoolEntry::NameAndType(c) => {
                push_decimal(&mut s, "NameAndTypeConstant[name_idx=", c.name_idx as u64);
                push_decimal(&mut s, ", descriptor_idx=", c.descriptor_idx as u64);
                s.append("]");
            },
        }
        s
    }

    /// Decodes the entry at the cursor. A tag that is none of the six known
    /// ones is reported with its value.
    pub fn from_bytecodes(bytecodes: &'a Vec<u8>, byte_idx: &mut usize) -> (r: Result<
        ConstantPoolEntry<'a>,
        DecodeError,
    >)
        ensures
            agrees(
                r,
                *old(byte_idx),
                *final(byte_idx),
                spec_constant(bytecodes@, *old(byte_idx) as int),
            ),
    {
        let mut peek: usize = *byte_idx;
        let tag = read_u8(bytecodes, &mut peek)?;
        if tag == TAG_UTF8 {
            Ok(ConstantPoolEntry::Utf8(Utf8Constant::from_bytecodes(bytecodes, byte_idx)?))
        } else if tag == TAG_CLASS {
            Ok(ConstantPoolEntry::Class(ClassConstant::from_bytecodes(bytecodes, byte_idx)?))
        } else if tag == TAG_STRING {
            Ok(ConstantPoolEntry::String(StringConstant::from_bytecodes(bytecodes, byte_idx)?))
        } else if tag == TAG_FIELD_REF {
            Ok(ConstantPoolEntry::FieldRef(FieldRefConstant::from_bytecodes(bytecodes, byte_idx)?))
        } else if tag == TAG_METHOD_REF {
            Ok(
                ConstantPoolEntry::MethodRef(
                    MethodRefConstant::from_bytecodes(bytecodes, byte_idx)?,
                ),
            )
        } else if tag == TAG_NAME_AND_TYPE {
            Ok(
                ConstantPoolEntry::NameAndType(
                    NameAndTypeConstant::from_bytecodes(bytecodes, byte_idx)?,
                ),
            )
        } else {
            Err(DecodeError::UnsupportedConstantTag(tag))
        }
    }
}

impl<'a> Utf8Constant<'a> {
    /// Decodes the text constant whose tag byte is at the cursor.
    ///
    /// With a declared length `n`, the string is made of exactly the `n`
    /// bytes that follow the length, and the cursor moves by `3 + n`.
    pub fn from_bytecodes(bytecodes: &'a Vec<u8>, byte_idx: &mut usize) -> (r: Result<
        Utf8Constant<'a>,
        DecodeError,
    >)
        ensures
            agrees(
                r,
                *old(byte_idx),
                *final(byte_idx),
                spec_utf8_constant(bytecodes@, *old(byte_idx) as int),
            ),
            r matches Ok(entry) ==> {
                let n = u16_at(bytecodes@, *old(byte_idx) + 1) as int;
                &&& entry.utf8_str.spec_bytes() == bytecodes@.subrange(
                    *old(byte_idx) + 3,
                    *old(byte_idx) + 3 + n,
                )
                &&& entry.utf8_str.spec_bytes().len() == n
                &&& *final(byte_idx) == *old(byte_idx) + 3 + n
            },
    {
        let mut pos: usize = *byte_idx;
        let _tag = read_u8(bytecodes, &mut pos)?;
        let length = read_u16(bytecodes, &mut pos)?;
        let text = read_slice(bytecodes, &mut pos, length as usize)?;
        match core::str::from_utf8(text) {
            Ok(utf8_str) => {
                proof {
                    crate::text::lemma_text_of_bytes(utf8_str);
                }
                *byte_idx = pos;
                Ok(Utf8Constant { utf8_str })
            },
            Err(_) => Err(DecodeError::InvalidUtf8),
        }
    }
}

impl ClassConstant {
    /// Decodes the class constant whose tag byte is at the cursor.
    pub fn from_bytecodes(bytecodes: &Vec<u8>, byte_idx: &mut usize) -> (r: Result<
        ClassConstant,
        DecodeError,
    >)
        ensures
            agrees(
                r,
                *old(byte_idx),
                *final(byte_idx),
                spec_class_constant(bytecodes@, *old(byte_idx) as int),
            ),
    {
        let mut pos: usize = *byte_idx;
        let _tag = read_u8(bytecodes, &mut pos)?;
        let name_idx = read_u16(bytecodes, &mut pos)?;
        *byte_idx = pos;
        Ok(ClassConstant { name_idx })
    }
}

impl StringConstant {
    /// Decodes the string constant whose tag byte is at the cursor.
    pub fn from_bytecodes(bytecodes: &Vec<u8>, byte_idx: &mut usize) -> (r: Result<
        StringConstant,
        DecodeError,
    >)
        ensures
            agrees(
                r,
                *old(byte_idx),
                *final(byte_idx),
                spec_string_constant(bytecodes@, *old(byte_idx) as int),
            ),
    {
        let mut pos: usize = *byte_idx;
        let _tag = read_u8(bytecodes, &mut pos)?;
        let string_idx = read_u16(bytecodes, &mut pos)?;
        *byte_idx = pos;
        Ok(StringConstant { string_idx })
    }
}

impl FieldRefConstant {
    /// Decodes the field reference whose tag byte is at the cursor.
    pub fn from_bytecodes(bytecodes: &Vec<u8>, byte_idx: &mut usize) -> (r: Result<
        FieldRefConstant,
        DecodeError,
    >)
        ensures
            agrees(
                r,
                *old(byte_idx),
                *final(byte_idx),
                spec_field_ref_constant(bytecodes@, *old(byte_idx) as int),
            ),
    {
        let mut pos: usize = *byte_idx;
        let _tag = read_u8(bytecodes, &mut pos)?;
        let class_idx = read_u16(bytecodes, &mut pos)?;
        let name_and_type_idx = read_u16(bytecodes, &mut pos)?;
        *byte_idx = pos;
        Ok(FieldRefConstant { class_idx, name_and_type_idx })
    }
}

impl MethodRefConstant {
    /// Decodes the method reference whose tag byte is at the cursor.
    pub fn from_bytecodes(bytecodes: &Vec<u8>, byte_idx: &mut usize) -> (r: Result<
        MethodRefConstant,
        DecodeError,
    >)
        ensures
            agrees(
                r,
                *old(byte_idx),
                *final(byte_idx),
                spec_method_ref_constant(bytecodes@, *old(byte_idx) as int),
            ),
    {
        let mut pos: usize = *byte_idx;
        let _tag = read_u8(bytecodes, &mut pos)?;
        let class_idx = read_u16(bytecodes, &mut pos)?;
        let name_and_type_idx = read_u16(bytecodes, &mut pos)?;
        *byte_idx = pos;
        Ok(MethodRefConstant { class_idx, name_and_type_idx })
    }
}

impl NameAndTypeConstant {
    /// Decodes the name-and-type pair whose tag byte is at the cursor.
    pub fn from_bytecodes(bytecodes: &Vec<u8>, byte_idx: &mut usize) -> (r: Result<
        NameAndTypeConstant,
        DecodeError,
    >)
        ensures
            agrees(
                r,
                *old(byte_idx),
                *final(byte_idx),
                spec_name_and_type_constant(bytecodes@, *old(byte_idx) as int),
            ),
    {
        let mut pos: usize = *byte_idx;
        let _tag = read_u8(bytecodes, &mut pos)?;
        let name_idx = read_u16(bytecodes, &mut pos)?;
        let descriptor_idx = read_u16(bytecodes, &mut pos)?;
        *byte_idx = pos;
        Ok(NameAndTypeConstant { name_idx, descriptor_idx })
    }
}

/// Decodes the pool that a declared count of `count` announces: the
/// `count - 1` entries at the cursor, under the indices 1 to `count - 1`.
/// A count of 0 announces no entry, as a count of 1 does.
pub fn decode_constant_pool<'a>(bytecodes: &'a Vec<u8>, byte_idx: &mut usize, count: u16) -> (r:
    Result<HashMap<u16, ConstantPoolEntry<'a>>, DecodeError>)
    ensures
        match spec_constant_pool(bytecodes@, *old(byte_idx) as int, pool_entries(count)) {
            Ok((pool, width)) => r matches Ok(p) && pool_view(p@) == pool
                && *final(byte_idx) == *old(byte_idx) + width,
            Err(failure) => r matches Err(e) && e@ == failure
                && *final(byte_idx) == *old(byte_idx),
        },
        r matches Ok(p) ==> pool_is_dense(pool_view(p@), pool_entries(count)),
{
    let start: usize = *byte_idx;
    let mut pool: HashMap<u16, ConstantPoolEntry<'a>> = HashMap::new();
    let mut pos: usize = start;
    let mut n: u16 = 1;
    assert(pool_view(pool@) =~= Map::<u16, ConstantView>::empty());
    while n < count
        invariant
            1 <= n,
            n <= count || (count == 0 && n == 1),
            start == *old(byte_idx),
            *byte_idx == start,
            pos >= start,
            spec_constant_pool(bytecodes@, start as int, (n - 1) as nat) == Ok::<
                (Map<u16, ConstantView>, nat),
                DecodeErrorView,
            >((pool_view(pool@), (pos - start) as nat)),
        decreases count - n,
    {
        let entry = match ConstantPoolEntry::from_bytecodes(bytecodes, &mut pos) {
            Ok(entry) => entry,
            Err(failure) => {
                proof {
                    lemma_pool_failure_persists(
                        bytecodes@,
                        start as int,
                        n as nat,
                        pool_entries(count),
                    );
                }
                return Err(failure);
            },
        };
        let ghost before = pool@;
        pool.insert(n, entry);
        assert(pool_view(pool@) =~= pool_view(before).insert(n, entry@));
        n = n + 1;
    }
    proof {
        lemma_pool_indices(bytecodes@, start as int, pool_entries(count));
    }
    *byte_idx = pos;
    Ok(pool)
}

/// Once an entry fails to decode, every longer pool fails in the same way.
pub proof fn lemma_pool_failure_persists(bytes: Seq<u8>, at: int, entries: nat, more: nat)
    requires
        entries <= more,
        spec_constant_pool(bytes, at, entries) is Err,
    ensures
        spec_constant_pool(bytes, at, more) == spec_constant_pool(bytes, at, entries),
    decreases more - entries,
{
    if entries < more {
        lemma_pool_failure_persists(bytes, at, entries, (more - 1) as nat);
    }
}

/// The pool holds an entry at each index from 1 to `entries`, and at no
/// other.
pub open spec fn pool_is_dense(pool: Map<u16, ConstantView>, entries: nat) -> bool {
    forall|i: u16| #[trigger] pool.contains_key(i) <==> 1 <= i <= entries
}

/// A decoded pool holds an entry at each index from 1 to the number of its
/// entries, and at no other.
pub proof fn lemma_pool_indices(bytes: Seq<u8>, at: int, entries: nat)
    requires
        entries <= 0xffff,
    ensures
        spec_constant_pool(bytes, at, entries) matches Ok((pool, _)) ==> pool_is_dense(
            pool,
            entries,
        ),
    decreases entries,
{
    if entries > 0 {
        lemma_pool_indices(bytes, at, (entries - 1) as nat);
    }
}

/// The failures in which decoding a pool can end: the buffer is cut short,
/// a text is not UTF-8, or a tag is not known.
pub open spec fn is_pool_failure(failure: DecodeErrorView) -> bool {
    failure is Truncated || failure is InvalidUtf8 || failure is UnsupportedConstantTag
}

/// Decoding a pool fails in no other way than [`is_pool_failure`] says.
pub proof fn lemma_pool_failures(bytes: Seq<u8>, at: int, entries: nat)
    ensures
        spec_constant_pool(bytes, at, entries) matches Err(failure) ==> is_pool_failure(failure),
    decreases entries,
{
    if entries > 0 {
        lemma_pool_failures(bytes, at, (entries - 1) as nat);
    }
}

/// How many entries a pool with the declared count `count` has.
pub open spec fn pool_entries(count: u16) -> nat {
    if count == 0 {
        0
    } else {
        (count - 1) as nat
    }
}

} // verus!
