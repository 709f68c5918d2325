//! Symbolic resolution: following indices through the constant pool until
//! they end in texts.
//!
//! A reference to a method or a field names a class constant and a
//! name-and-type pair; these name texts in turn. Resolution either reaches
//! all three texts or stops at the first index that does not hold what it
//! must, and says which kind of constant was wanted there:
//! [`DecodeError::ExpectedUtf8`] where a text was, and
//! [`DecodeError::MissingConstantPoolEntry`] where a class, a pair or a
//! reference was.

use crate::constants::{
    pool_view, ClassConstant, ConstantPoolEntry, ConstantView, FieldRefConstant,
    MethodRefConstant, NameAndTypeConstant,
};
use crate::error::{reports, DecodeError, DecodeErrorView};
use std::collections::HashMap;
use vstd::prelude::*;

verus! {

broadcast use vstd::std_specs::hash::group_hash_axioms;

/// The three texts that a method or field reference resolves to.
#[derive(Debug, Clone, Copy, PartialEq, Eq)]
pub struct ResolvedMember<'a> {
    pub class_name: &'a str,
    pub name: &'a str,
    pub descriptor: &'a str,
}

/// The mathematical value of a [`ResolvedMember`].
pub struct MemberView {
    pub class_name: Seq<char>,
    pub name: Seq<char>,
    pub descriptor: Seq<char>,
}

impl<'a> View for ResolvedMember<'a> {
    type V = MemberView;

    open spec fn view(&self) -> MemberView {
        MemberView {
            class_name: self.class_name@,
            name: self.name@,
            descriptor: self.descriptor@,
        }
    }
}

/// The text at `index`.
pub open spec fn spec_text_at(pool: Map<u16, ConstantView>, index: u16) -> Result<
    Seq<char>,
    DecodeErrorView,
> {
    if pool.contains_key(index) && pool[index] is Utf8 {
        Ok(pool[index]->Utf8_0)
    } else {
        Err(DecodeErrorView::ExpectedUtf8)
    }
}

/// The class constant at `index`.
pub open spec fn spec_class_at(pool: Map<u16, ConstantView>, index: u16) -> Result<
    ClassConstant,
    DecodeErrorView,
> {
    if pool.contains_key(index) && pool[index] is Class {
        Ok(pool[index]->Class_0)
    } else {
        Err(DecodeErrorView::MissingConstantPoolEntry)
    }
}

/// The name-and-type pair at `index`.
pub open spec fn spec_name_and_type_at(pool: Map<u16, ConstantView>, index: u16) -> Result<
    NameAndTypeConstant,
    DecodeErrorView,
> {
    if pool.contains_key(index) && pool[index] is NameAndType {
        Ok(pool[index]->NameAndType_0)
    } else {
        Err(DecodeErrorView::MissingConstantPoolEntry)
    }
}

/// The method reference at `index`.
pub open spec fn spec_method_ref_at(pool: Map<u16, ConstantView>, index: u16) -> Result<
    MethodRefConstant,
    DecodeErrorView,
> {
    if pool.contains_key(index) && pool[index] is MethodRef {
        Ok(pool[index]->MethodRef_0)
    } else {
        Err(DecodeErrorView::MissingConstantPoolEntry)
    }
}

/// The field reference at `index`.
pub open spec fn spec_field_ref_at(pool: Map<u16, ConstantView>, index: u16) -> Result<
    FieldRefConstant,
    DecodeErrorView,
> {
    if pool.contains_key(index) && pool[index] is FieldRef {
        Ok(pool[index]->FieldRef_0)
    } else {
        Err(DecodeErrorView::MissingConstantPoolEntry)
    }
}

/// The texts behind a class index and a name-and-type index: the class and
/// its name first, then the pair, its name and its descriptor.
pub open spec fn spec_resolve_member(
    pool: Map<u16, ConstantView>,
    class_idx: u16,
    name_and_type_idx: u16,
) -> Result<MemberView, DecodeErrorView> {
    match spec_class_at(pool, class_idx) {
        Err(failure) => Err(failure),
        Ok(class) => match spec_text_at(pool, class.name_idx) {
            Err(failure) => Err(failure),
            Ok(class_name) => match spec_name_and_type_at(pool, name_and_type_idx) {
                Err(failure) => Err(failure),
                Ok(pair) => match spec_text_at(pool, pair.name_idx) {
                    Err(failure) => Err(failure),
                    Ok(name) => match spec_text_at(pool, pair.descriptor_idx) {
                        Err(failure) => Err(failure),
                        Ok(descriptor) => Ok(MemberView { class_name, name, descriptor }),
                    },
                },
            },
        },
    }
}

/// The texts behind the method reference at `index`.
pub open spec fn spec_resolve_method_ref(pool: Map<u16, ConstantView>, index: u16) -> Result<
    MemberView,
    DecodeErrorView,
> {
    match spec_method_ref_at(pool, index) {
        Err(failure) => Err(failure),
        Ok(method) => spec_resolve_member(pool, method.class_idx, method.name_and_type_idx),
    }
}

/// The texts behind the field reference at `index`.
pub open spec fn spec_resolve_field_ref(pool: Map<u16, ConstantView>, index: u16) -> Result<
    MemberView,
    DecodeErrorView,
> {
    match spec_field_ref_at(pool, index) {
        Err(failure) => Err(failure),
        Ok(field) => spec_resolve_member(pool, field.class_idx, field.name_and_type_idx),
    }
}

/// In `pool`, the chain of constants that starts at the method reference at
/// `index` is whole and ends in the three texts of `member`.
pub open spec fn method_chain_is_whole(
    pool: Map<u16, ConstantView>,
    index: u16,
    member: MemberView,
) -> bool {
    &&& pool.contains_key(index)
    &&& pool[index] is MethodRef
    &&& {
        let method = pool[index]->MethodRef_0;
        &&& pool.contains_key(method.class_idx)
        &&& pool[method.class_idx] is Class
        &&& pool.contains_key(method.name_and_type_idx)
        &&& pool[method.name_and_type_idx] is NameAndType
        &&& {
            let class = pool[method.class_idx]->Class_0;
            let pair = pool[method.name_and_type_idx]->NameAndType_0;
            &&& pool.contains_key(class.name_idx)
            &&& pool[class.name_idx] == ConstantView::Utf8(member.class_name)
            &&& pool.contains_key(pair.name_idx)
            &&& pool[pair.name_idx] == ConstantView::Utf8(member.name)
            &&& pool.contains_key(pair.descriptor_idx)
            &&& pool[pair.descriptor_idx] == ConstantView::Utf8(member.descriptor)
        }
    }
}

/// Resolution of a method reference never stops half-way with a result. It
/// succeeds with `member` exactly when the reference, its class, the
/// class's name, its name-and-type pair and the pair's two texts are all in
/// the pool and the texts are those of `member`. Otherwise it fails, and the
/// failure is one of two: a text was wanted, or a structural constant was.
pub proof fn lemma_method_resolution_all_or_nothing(
    pool: Map<u16, ConstantView>,
    index: u16,
    member: MemberView,
)
    ensures
        spec_resolve_method_ref(pool, index) == Ok::<MemberView, DecodeErrorView>(member)
            <==> method_chain_is_whole(pool, index, member),
        spec_resolve_method_ref(pool, index) matches Err(failure) ==> failure
            == DecodeErrorView::MissingConstantPoolEntry || failure
            == DecodeErrorView::ExpectedUtf8,
{
}

/// Every index that an entry of the pool holds names an entry of the kind
/// that must stand there: a class and a string name a text, a pair names
/// two texts, a field or method reference names a class and a pair.
///
/// Decoding does not establish this: a pool is decoded entry by entry,
/// whatever its indices point to, and a reference that leads nowhere is
/// reported when it is resolved.
pub open spec fn pool_is_closed(pool: Map<u16, ConstantView>) -> bool {
    forall|i: u16| #[trigger]
        pool.contains_key(i) ==> match pool[i] {
            ConstantView::Utf8(_) => true,
            ConstantView::Class(c) => spec_text_at(pool, c.name_idx) is Ok,
            ConstantView::String(c) => spec_text_at(pool, c.string_idx) is Ok,
            ConstantView::NameAndType(c) => spec_text_at(pool, c.name_idx) is Ok && spec_text_at(
                pool,
                c.descriptor_idx,
            ) is Ok,
            ConstantView::FieldRef(c) => spec_class_at(pool, c.class_idx) is Ok
                && spec_name_and_type_at(pool, c.name_and_type_idx) is Ok,
            ConstantView::MethodRef(c) => spec_class_at(pool, c.class_idx) is Ok
                && spec_name_and_type_at(pool, c.name_and_type_idx) is Ok,
        }
}

/// In a closed pool every method reference and every field reference
/// resolves, all the way down to its three texts.
pub proof fn lemma_closed_pool_resolves(pool: Map<u16, ConstantView>, index: u16)
    requires
        pool_is_closed(pool),
    ensures
        spec_method_ref_at(pool, index) is Ok ==> spec_resolve_method_ref(pool, index) is Ok,
        spec_field_ref_at(pool, index) is Ok ==> spec_resolve_field_ref(pool, index) is Ok,
{
}

/// Looks up the text at `index`.
pub fn text_at<'a>(pool: &HashMap<u16, ConstantPoolEntry<'a>>, index: u16) -> (r: Result<
    &'a str,
    DecodeError,
>)
    ensures
        reports(r, spec_text_at(pool_view(pool@), index)),
{
    match pool.get(&index) {
        Some(ConstantPoolEntry::Utf8(text)) => Ok(text.utf8_str),
        _ => Err(DecodeError::ExpectedUtf8),
    }
}

/// Looks up the class constant at `index`.
pub fn class_at<'a>(pool: &HashMap<u16, ConstantPoolEntry<'a>>, index: u16) -> (r: Result<
    ClassConstant,
    DecodeError,
>)
    ensures
        reports(r, spec_class_at(pool_view(pool@), index)),
{
    match pool.get(&index) {
        Some(ConstantPoolEntry::Class(class)) => Ok(*class),
        _ => Err(DecodeError::MissingConstantPoolEntry),
    }
}

/// Looks up the name-and-type pair at `index`.
pub fn name_and_type_at<'a>(pool: &HashMap<u16, ConstantPoolEntry<'a>>, index: u16) -> (r: Result<
    NameAndTypeConstant,
    DecodeError,
>)
    ensures
        reports(r, spec_name_and_type_at(pool_view(pool@), index)),
{
    match pool.get(&index) {
        Some(ConstantPoolEntry::NameAndType(pair)) => Ok(*pair),
        _ => Err(DecodeError::MissingConstantPoolEntry),
    }
}

/// Looks up the method reference at `index`.
pub fn method_ref_at<'a>(pool: &HashMap<u16, ConstantPoolEntry<'a>>, index: u16) -> (r: Result<
    MethodRefConstant,
    DecodeError,
>)
    ensures
        reports(r, spec_method_ref_at(pool_view(pool@), index)),
{
    match pool.get(&index) {
        Some(ConstantPoolEntry::MethodRef(method)) => Ok(*method),
        _ => Err(DecodeError::MissingConstantPoolEntry),
    }
}

/// Looks up the field reference at `index`.
pub fn field_ref_at<'a>(pool: &HashMap<u16, ConstantPoolEntry<'a>>, index: u16) -> (r: Result<
    FieldRefConstant,
    DecodeError,
>)
    ensures
        reports(r, spec_field_ref_at(pool_view(pool@), index)),
{
    match pool.get(&index) {
        Some(ConstantPoolEntry::FieldRef(field)) => Ok(*field),
        _ => Err(DecodeError::MissingConstantPoolEntry),
    }
}

/// Resolves a class index and a name-and-type index to their three texts.
pub fn resolve_member<'a>(
    pool: &HashMap<u16, ConstantPoolEntry<'a>>,
    class_idx: u16,
    name_and_type_idx: u16,
) -> (r: Result<ResolvedMember<'a>, DecodeError>)
    ensures
        reports(r, spec_resolve_member(pool_view(pool@), class_idx, name_and_type_idx)),
{
    let class = class_at(pool, class_idx)?;
    let class_name = text_at(pool, class.name_idx)?;
    let pair = name_and_type_at(pool, name_and_type_idx)?;
    let name = text_at(pool, pair.name_idx)?;
    let descriptor = text_at(pool, pair.descriptor_idx)?;
    Ok(ResolvedMember { class_name, name, descriptor })
}

/// Resolves the method reference at `index` to the name of its class, its
/// own name and its descriptor.
pub fn resolve_method_ref<'a>(pool: &HashMap<u16, ConstantPoolEntry<'a>>, index: u16) -> (r:
    Result<ResolvedMember<'a>, DecodeError>)
    ensures
        reports(r, spec_resolve_method_ref(pool_view(pool@), index)),
{
    let method = method_ref_at(pool, index)?;
    resolve_member(pool, method.class_idx, method.name_and_type_idx)
}

/// Resolves the field reference at `index` to the name of its class, its own
/// name and its descriptor.
pub fn resolve_field_ref<'a>(pool: &HashMap<u16, ConstantPoolEntry<'a>>, index: u16) -> (r: Result<
    ResolvedMember<'a>,
    DecodeError,
>)
    ensures
        reports(r, spec_resolve_field_ref(pool_view(pool@), index)),
{
    let field = field_ref_at(pool, index)?;
    resolve_member(pool, field.class_idx, field.name_and_type_idx)
}

} // verus!
