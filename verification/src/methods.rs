//! Methods: flags, name, descriptor, and the attributes that hang on them.

use crate::attributes::{
    attribute_views, attributes_are_well_formed, decode_attributes, is_attribute_failure,
    lemma_attributes_failures, lemma_decoded_attributes_are_well_formed, push_attributes,
    spec_attributes, spec_attributes_text, Attribute, AttributeView, CodeAttribute,
    CodeAttributeView,
};
use crate::constants::{pool_view, ConstantPoolEntry, ConstantView};
use crate::error::{agrees, DecodeError, DecodeErrorView, Decoded};
use crate::reader::{in_bounds, read_u16, u16_at};
use crate::resolution::{spec_text_at, text_at};
use crate::text::{decimal, hex_string, lower_hex, push_decimal};
use std::collections::HashMap;
use vstd::prelude::*;
use vstd::string::StringExecFns;

verus! {

/// A method of the class. `name` is the text that `name_idx` points to, by
/// which the method is looked up.
#[derive(Debug, PartialEq, Eq)]
pub struct Method<'a> {
    pub access_flags: u16,
    pub name_idx: u16,
    pub name: &'a str,
    pub descriptor_idx: u16,
    pub attrs_count: u16,
    pub attributes: Vec<Attribute<'a>>,
}

/// The mathematical value of a [`Method`].
pub struct MethodView {
    pub access_flags: u16,
    pub name_idx: u16,
    pub name: Seq<char>,
    pub descriptor_idx: u16,
    pub attrs_count: u16,
    pub attributes: Seq<AttributeView>,
}

impl<'a> View for Method<'a> {
    type V = MethodView;

    open spec fn view(&self) -> MethodView {
        MethodView {
            access_flags: self.access_flags,
            name_idx: self.name_idx,
            name: self.name@,
            descriptor_idx: self.descriptor_idx,
            attrs_count: self.attrs_count,
            attributes: attribute_views(self.attributes@),
        }
    }
}

/// The values of a sequence of methods, in order.
pub open spec fn method_views<'a>(methods: Seq<Method<'a>>) -> Seq<MethodView> {
    Seq::new(methods.len(), |i: int| methods[i]@)
}

/// The method at `at`: four 16-bit fields (flags, name index, descriptor
/// index, attribute count), a name that must be a text in `pool`, then the
/// attributes.
pub open spec fn spec_method(bytes: Seq<u8>, at: int, pool: Map<u16, ConstantView>) -> Decoded<
    MethodView,
> {
    if !in_bounds(bytes, at, 8) {
        Err(DecodeErrorView::Truncated)
    } else {
        match spec_text_at(pool, u16_at(bytes, at + 2)) {
            Err(failure) => Err(failure),
            Ok(name) => match spec_attributes(bytes, at + 8, pool, u16_at(bytes, at + 6) as nat) {
                Err(failure) => Err(failure),
                Ok((attributes, width)) => Ok(
                    (
                        MethodView {
                            access_flags: u16_at(bytes, at),
                            name_idx: u16_at(bytes, at + 2),
                            name,
                            descriptor_idx: u16_at(bytes, at + 4),
                            attrs_count: u16_at(bytes, at + 6),
                            attributes,
                        },
                        8 + width,
                    ),
                ),
            },
        }
    }
}

/// The `count` methods that follow each other from `at` on.
pub open spec fn spec_methods(
    bytes: Seq<u8>,
    at: int,
    pool: Map<u16, ConstantView>,
    count: nat,
) -> Decoded<Seq<MethodView>>
    decreases count,
{
    if count == 0 {
        Ok((Seq::empty(), 0))
    } else {
        match spec_methods(bytes, at, pool, (count - 1) as nat) {
            Err(failure) => Err(failure),
            Ok((methods, width)) => match spec_method(bytes, at + width, pool) {
                Err(failure) => Err(failure),
                Ok((method, w)) => Ok((methods.push(method), width + w)),
            },
        }
    }
}

/// Once a method fails to decode, every longer list fails in the same way.
pub proof fn lemma_methods_failure_persists(
    bytes: Seq<u8>,
    at: int,
    pool: Map<u16, ConstantView>,
    count: nat,
    more: nat,
)
    requires
        count <= more,
        spec_methods(bytes, at, pool, count) is Err,
    ensures
        spec_methods(bytes, at, pool, more) == spec_methods(bytes, at, pool, count),
    decreases more - count,
{
    if count < more {
        lemma_methods_failure_persists(bytes, at, pool, count, (more - 1) as nat);
    }
}

/// The attribute count that a method records is the number of its
/// attributes, and each of them is well formed.
pub open spec fn method_is_well_formed(method: MethodView) -> bool {
    attributes_are_well_formed(method.attributes, method.attrs_count as nat)
}

/// There are `count` methods, each of them well formed.
pub open spec fn methods_are_well_formed(methods: Seq<MethodView>, count: nat) -> bool {
    &&& methods.len() == count
    &&& forall|i: int| 0 <= i < methods.len() ==> method_is_well_formed(#[trigger] methods[i])
}

/// A decoded method is well formed.
pub proof fn lemma_decoded_method_is_well_formed(
    bytes: Seq<u8>,
    at: int,
    pool: Map<u16, ConstantView>,
)
    ensures
        spec_method(bytes, at, pool) matches Ok((method, _)) ==> method_is_well_formed(method),
{
    lemma_decoded_attributes_are_well_formed(bytes, at + 8, pool, u16_at(bytes, at + 6) as nat);
}

/// Decoded methods are as many as were asked for, and are well formed.
pub proof fn lemma_decoded_methods_are_well_formed(
    bytes: Seq<u8>,
    at: int,
    pool: Map<u16, ConstantView>,
    count: nat,
)
    ensures
        spec_methods(bytes, at, pool, count) matches Ok((methods, _)) ==> methods_are_well_formed(
            methods,
            count,
        ),
    decreases count,
{
    if count > 0 {
        lemma_decoded_methods_are_well_formed(bytes, at, pool, (count - 1) as nat);
        if let Ok((_, width)) = spec_methods(bytes, at, pool, (count - 1) as nat) {
            lemma_decoded_method_is_well_formed(bytes, at + width, pool);
        }
    }
}

/// Decoding a list of methods fails in no other way than decoding an
/// attribute does.
pub proof fn lemma_methods_failures(
    bytes: Seq<u8>,
    at: int,
    pool: Map<u16, ConstantView>,
    count: nat,
)
    ensures
        spec_methods(bytes, at, pool, count) matches Err(failure) ==> is_attribute_failure(
            failure,
        ),
    decreases count,
{
    if count > 0 {
        lemma_methods_failures(bytes, at, pool, (count - 1) as nat);
        if let Ok((_, width)) = spec_methods(bytes, at, pool, (count - 1) as nat) {
            lemma_attributes_failures(
                bytes,
                at + width + 8,
                pool,
                u16_at(bytes, at + width + 6) as nat,
            );
        }
    }
}

/// The code among `attributes`: the last `Code` attribute, if there is one.
pub open spec fn spec_code_of(attributes: Seq<AttributeView>) -> Option<CodeAttributeView>
    decreases attributes.len(),
{
    if attributes.len() == 0 {
        None
    } else if attributes.last() is Code {
        Some(attributes.last()->Code_0)
    } else {
        spec_code_of(attributes.drop_last())
    }
}

/// The printable summary of a method: its fields, one to a line, the flags
/// in hexadecimal, then its attributes.
pub open spec fn spec_method_text(method: MethodView) -> Seq<char> {
    "Method:\n\t- access_flags=0x"@ + lower_hex(method.access_flags as nat) + "\n\t- name_idx="@
        + decimal(method.name_idx as nat) + "\n\t- descriptor_idx="@ + decimal(
        method.descriptor_idx as nat,
    ) + "\n\t- attrs_count="@ + decimal(method.attrs_count as nat) + "\n"@
        + spec_attributes_text(method.attributes, method.attributes.len(), "\tAttribute:"@)
}

impl<'a> Method<'a> {
    /// The printable summary of the method.
    pub fn to_string(&self) -> (s: String)
        ensures
            s@ == spec_method_text(self@),
    {
        let mut s = String::new();
        s.append("Method:\n\t- access_flags=0x");
        let flags = hex_string(self.access_flags as u64);
        s.append(flags.as_str());
        push_decimal(&mut s, "\n\t- name_idx=", self.name_idx as u64);
        push_decimal(&mut s, "\n\t- descriptor_idx=", self.descriptor_idx as u64);
        push_decimal(&mut s, "\n\t- attrs_count=", self.attrs_count as u64);
        s.append("\n");
        push_attributes(&mut s, &self.attributes, "\tAttribute:");
        s
    }

    /// Decodes the method at the cursor.
    pub fn from_bytecodes(
        bytecodes: &'a Vec<u8>,
        byte_idx: &mut usize,
        constant_pool: &HashMap<u16, ConstantPoolEntry<'a>>,
    ) -> (r: Result<Method<'a>, DecodeError>)
        ensures
            agrees(
                r,
                *old(byte_idx),
                *final(byte_idx),
                spec_method(bytecodes@, *old(byte_idx) as int, pool_view(constant_pool@)),
            ),
            r matches Ok(method) ==> method_is_well_formed(method@),
    {
        proof {
            lemma_decoded_method_is_well_formed(
                bytecodes@,
                *byte_idx as int,
                pool_view(constant_pool@),
            );
        }
        let mut pos: usize = *byte_idx;
        let access_flags = read_u16(bytecodes, &mut pos)?;
        let name_idx = read_u16(bytecodes, &mut pos)?;
        let descriptor_idx = read_u16(bytecodes, &mut pos)?;
        let attrs_count = read_u16(bytecodes, &mut pos)?;
        let name = text_at(constant_pool, name_idx)?;
        let attributes = decode_attributes(bytecodes, &mut pos, constant_pool, attrs_count)?;
        *byte_idx = pos;
        Ok(Method { access_flags, name_idx, name, descriptor_idx, attrs_count, attributes })
    }

    /// The code of the method: its last `Code` attribute, or nothing where
    /// it has none.
    pub fn code(&self) -> (r: Option<&CodeAttribute<'a>>)
        ensures
            match spec_code_of(self@.attributes) {
                Some(code) => r matches Some(c) && c@ == code,
                None => r is None,
            },
    {
        let mut i: usize = self.attributes.len();
        let ghost all = attribute_views(self.attributes@);
        assert(all.take(i as int) =~= all);
        while i > 0
            invariant
                i <= self.attributes.len(),
                all == attribute_views(self.attributes@),
                spec_code_of(all) == spec_code_of(all.take(i as int)),
            decreases i,
        {
            i = i - 1;
            assert(all.take(i + 1).drop_last() =~= all.take(i as int));
            if let Attribute::Code(code) = &self.attributes[i] {
                return Some(code);
            }
        }
        None
    }
}

/// Decodes the `count` methods at the cursor, in order.
pub fn decode_methods<'a>(
    bytecodes: &'a Vec<u8>,
    byte_idx: &mut usize,
    constant_pool: &HashMap<u16, ConstantPoolEntry<'a>>,
    count: u16,
) -> (r: Result<Vec<Method<'a>>, DecodeError>)
    ensures
        match spec_methods(
            bytecodes@,
            *old(byte_idx) as int,
            pool_view(constant_pool@),
            count as nat,
        ) {
            Ok((values, width)) => r matches Ok(methods)
                && method_views(methods@) == values
                && *final(byte_idx) == *old(byte_idx) + width,
            Err(failure) => r matches Err(e) && e@ == failure
                && *final(byte_idx) == *old(byte_idx),
        },
        r matches Ok(methods) ==> methods_are_well_formed(method_views(methods@), count as nat),
{
    proof {
        lemma_decoded_methods_are_well_formed(
            bytecodes@,
            *byte_idx as int,
            pool_view(constant_pool@),
            count as nat,
        );
    }
    let start: usize = *byte_idx;
    let mut methods: Vec<Method<'a>> = Vec::new();
    let mut pos: usize = start;
    let mut i: u16 = 0;
    assert(method_views(methods@) =~= Seq::<MethodView>::empty());
    while i < count
        invariant
            i <= count,
            start == *old(byte_idx),
            *byte_idx == start,
            pos >= start,
            spec_methods(bytecodes@, start as int, pool_view(constant_pool@), i as nat) == Ok::<
                (Seq<MethodView>, nat),
                DecodeErrorView,
            >((method_views(methods@), (pos - start) as nat)),
        decreases count - i,
    {
        let method = match Method::from_bytecodes(bytecodes, &mut pos, constant_pool) {
            Ok(method) => method,
            Err(failure) => {
                proof {
                    lemma_methods_failure_persists(
                        bytecodes@,
                        start as int,
                        pool_view(constant_pool@),
                        (i + 1) as nat,
                        count as nat,
                    );
                }
                return Err(failure);
            },
        };
        let ghost before = methods@;
        methods.push(method);
        assert(method_views(methods@) =~= method_views(before).push(method@));
        i = i + 1;
    }
    *byte_idx = pos;
    Ok(methods)
}

} // verus!
