//! The class file as a whole: the raw buffer and the model decoded from it.
//!
//! [`Class`] owns the bytes. [`ClassFile`] is what [`Class::parse`] makes of
//! them: it borrows its texts and its code from the buffer and so cannot
//! outlive the [`Class`] it came from. After decoding, nothing of the model
//! is ever changed.
//!
//! The layout, in order: the magic number, minor and major version, the
//! constant pool behind its count, access flags, the indices of this class
//! and of its superclass, the interface count and the field count (both
//! must be 0), the methods behind their count, and the class's attributes
//! behind theirs.

use crate::attributes::{
    attribute_is_well_formed, attribute_views, decode_attributes, is_attribute_failure,
    lemma_attributes_failures, spec_attributes, Attribute, AttributeView,
};
use crate::constants::{
    decode_constant_pool, is_pool_failure, lemma_pool_failures, pool_entries, pool_is_dense,
    pool_view, spec_constant_pool, ConstantPoolEntry, ConstantView,
};
use crate::error::{agrees, reports, DecodeError, DecodeErrorView, Decoded};
use crate::methods::{
    decode_methods, lemma_methods_failures, method_is_well_formed, method_views, spec_methods,
    Method, MethodView,
};
use crate::reader::{has_bytes, in_bounds, read_u16, u16_at};
use crate::text::str_eq;
use std::collections::HashMap;
use vstd::prelude::*;

verus! {

/// The four bytes that every class file starts with.
pub const MAGIC: [u8; 4] = [0xca, 0xfe, 0xba, 0xbe];

/// What [`DecodeError::UnsupportedFeature`] says of a class with interfaces.
pub const INTERFACES: &'static str = "interfaces";

/// What [`DecodeError::UnsupportedFeature`] says of a class with fields.
pub const FIELDS: &'static str = "fields";

/// A class as it was loaded: its name and the bytes of its file.
#[derive(Debug, PartialEq, Eq)]
pub struct Class<'a> {
    pub class_name: &'a String,
    pub buffer: Vec<u8>,
}

/// The decoded class: versions, constant pool, flags and methods.
///
/// Methods are kept in the order of the file and looked up by name alone.
/// Where two methods bear the same name, the later one hides the earlier:
/// overloads are not told apart.
#[derive(Debug, PartialEq, Eq)]
pub struct ClassFile<'a> {
    pub minor_version: u16,
    pub major_version: u16,
    pub constant_pool_count: u16,
    pub constant_pool: HashMap<u16, ConstantPoolEntry<'a>>,
    pub access_flags: u16,
    pub this_class: u16,
    pub super_class: u16,
    pub methods: Vec<Method<'a>>,
    pub attributes: Vec<Attribute<'a>>,
}

/// The mathematical value of a [`ClassFile`].
pub struct ClassFileView {
    pub minor_version: u16,
    pub major_version: u16,
    pub constant_pool_count: u16,
    pub constant_pool: Map<u16, ConstantView>,
    pub access_flags: u16,
    pub this_class: u16,
    pub super_class: u16,
    pub methods: Seq<MethodView>,
    pub attributes: Seq<AttributeView>,
}

impl<'a> View for ClassFile<'a> {
    type V = ClassFileView;

    open spec fn view(&self) -> ClassFileView {
        ClassFileView {
            minor_version: self.minor_version,
            major_version: self.major_version,
            constant_pool_count: self.constant_pool_count,
            constant_pool: pool_view(self.constant_pool@),
            access_flags: self.access_flags,
            this_class: self.this_class,
            super_class: self.super_class,
            methods: method_views(self.methods@),
            attributes: attribute_views(self.attributes@),
        }
    }
}

/// The pool's indices run from 1 to one less than the declared count, and
/// every method and every attribute of the class is well formed.
pub open spec fn class_is_well_formed(class: ClassFileView) -> bool {
    &&& pool_is_dense(class.constant_pool, pool_entries(class.constant_pool_count))
    &&& forall|i: int|
        0 <= i < class.methods.len() ==> method_is_well_formed(#[trigger] class.methods[i])
    &&& forall|i: int|
        0 <= i < class.attributes.len() ==> attribute_is_well_formed(
            #[trigger] class.attributes[i],
        )
}

/// The four bytes at `at` are the magic number.
pub open spec fn has_magic(bytes: Seq<u8>, at: int) -> bool {
    &&& in_bounds(bytes, at, 4)
    &&& bytes[at] == 0xca
    &&& bytes[at + 1] == 0xfe
    &&& bytes[at + 2] == 0xba
    &&& bytes[at + 3] == 0xbe
}

/// Decoding the magic number at `at`.
pub open spec fn spec_magic(bytes: Seq<u8>, at: int) -> Decoded<()> {
    if has_magic(bytes, at) {
        Ok(((), 4))
    } else {
        Err(DecodeErrorView::BadMagic)
    }
}

/// What follows the constant pool, from `at` on: flags, this class,
/// superclass, the two counts that must be 0, methods and attributes.
pub open spec fn spec_class_body(
    bytes: Seq<u8>,
    at: int,
    minor_version: u16,
    major_version: u16,
    constant_pool_count: u16,
    pool: Map<u16, ConstantView>,
) -> Result<ClassFileView, DecodeErrorView> {
    if !in_bounds(bytes, at, 8) {
        Err(DecodeErrorView::Truncated)
    } else if u16_at(bytes, at + 6) != 0 {
        Err(DecodeErrorView::UnsupportedFeature(INTERFACES@))
    } else if !in_bounds(bytes, at + 8, 2) {
        Err(DecodeErrorView::Truncated)
    } else if u16_at(bytes, at + 8) != 0 {
        Err(DecodeErrorView::UnsupportedFeature(FIELDS@))
    } else if !in_bounds(bytes, at + 10, 2) {
        Err(DecodeErrorView::Truncated)
    } else {
        match spec_methods(bytes, at + 12, pool, u16_at(bytes, at + 10) as nat) {
            Err(failure) => Err(failure),
            Ok((methods, width)) => if !in_bounds(bytes, at + 12 + width, 2) {
                Err(DecodeErrorView::Truncated)
            } else {
                match spec_attributes(
                    bytes,
                    at + 14 + width,
                    pool,
                    u16_at(bytes, at + 12 + width) as nat,
                ) {
                    Err(failure) => Err(failure),
                    Ok((attributes, _)) => Ok(
                        ClassFileView {
                            minor_version,
                            major_version,
                            constant_pool_count,
                            constant_pool: pool,
                            access_flags: u16_at(bytes, at),
                            this_class: u16_at(bytes, at + 2),
                            super_class: u16_at(bytes, at + 4),
                            methods,
                            attributes,
                        },
                    ),
                }
            },
        }
    }
}

/// The class that `bytes` encode, or why they encode none.
pub open spec fn spec_class_file(bytes: Seq<u8>) -> Result<ClassFileView, DecodeErrorView> {
    if !has_magic(bytes, 0) {
        Err(DecodeErrorView::BadMagic)
    } else if !in_bounds(bytes, 4, 6) {
        Err(DecodeErrorView::Truncated)
    } else {
        match spec_constant_pool(bytes, 10, pool_entries(u16_at(bytes, 8))) {
            Err(failure) => Err(failure),
            Ok((pool, width)) => spec_class_body(
                bytes,
                10 + width as int,
                u16_at(bytes, 4),
                u16_at(bytes, 6),
                u16_at(bytes, 8),
                pool,
            ),
        }
    }
}

/// The method called `name`: the last of that name in file order.
pub open spec fn spec_method_named(methods: Seq<MethodView>, name: Seq<char>) -> Option<
    MethodView,
>
    decreases methods.len(),
{
    if methods.len() == 0 {
        None
    } else if methods.last().name == name {
        Some(methods.last())
    } else {
        spec_method_named(methods.drop_last(), name)
    }
}

/// Lookup by name finds a method exactly when one has that name, and of
/// several with that name it finds the last. An earlier method of the same
/// name, such as an overload, cannot be reached.
pub proof fn lemma_last_method_of_a_name_wins(methods: Seq<MethodView>, name: Seq<char>)
    ensures
        spec_method_named(methods, name) is None <==> forall|i: int|
            0 <= i < methods.len() ==> (#[trigger] methods[i]).name != name,
        spec_method_named(methods, name) matches Some(found) ==> exists|i: int|
            {
                &&& 0 <= i < methods.len()
                &&& #[trigger] methods[i] == found
                &&& found.name == name
                &&& forall|j: int| i < j < methods.len() ==> (#[trigger] methods[j]).name != name
            },
    decreases methods.len(),
{
    if methods.len() > 0 {
        let last = methods.len() - 1;
        if methods.last().name == name {
            assert(methods[last] == methods.last());
        } else {
            let front = methods.drop_last();
            lemma_last_method_of_a_name_wins(front, name);
            assert forall|i: int| 0 <= i < front.len() implies front[i] == methods[i] by {}
            if spec_method_named(front, name) is Some {
                let found = spec_method_named(front, name)->Some_0;
                let i = choose|i: int|
                    {
                        &&& 0 <= i < front.len()
                        &&& #[trigger] front[i] == found
                        &&& found.name == name
                        &&& forall|j: int|
                            i < j < front.len() ==> (#[trigger] front[j]).name != name
                    };
                assert(methods[i] == found);
                assert forall|j: int| i < j < methods.len() implies (
                #[trigger] methods[j]).name != name by {
                    if j < front.len() {
                        assert(front[j] == methods[j]);
                    }
                }
            } else {
                assert forall|i: int| 0 <= i < methods.len() implies (
                #[trigger] methods[i]).name != name by {
                    if i < front.len() {
                        assert(front[i] == methods[i]);
                    }
                }
            }
        }
    }
}

/// Decoding a class fails with [`DecodeError::BadMagic`] exactly when the
/// buffer does not start with the magic number: with the magic number in
/// place, whatever follows it, the failure is another one or there is none;
/// with any other leading bytes, or fewer than four, the failure is this
/// one.
///
/// Any other failure is one of the pool decoder, one of the attribute
/// decoder, or an unsupported feature. No failure of the interpreter comes
/// out of decoding.
pub proof fn lemma_magic_decides(bytes: Seq<u8>)
    ensures
        spec_class_file(bytes) == Err::<ClassFileView, DecodeErrorView>(DecodeErrorView::BadMagic)
            <==> !has_magic(bytes, 0),
        spec_class_file(bytes) matches Err(failure) ==> failure is BadMagic || is_pool_failure(
            failure,
        ) || is_attribute_failure(failure) || failure == DecodeErrorView::UnsupportedFeature(
            INTERFACES@,
        ) || failure == DecodeErrorView::UnsupportedFeature(FIELDS@),
{
    if has_magic(bytes, 0) && in_bounds(bytes, 4, 6) {
        let entries = pool_entries(u16_at(bytes, 8));
        lemma_pool_failures(bytes, 10, entries);
        if let Ok((pool, w)) = spec_constant_pool(bytes, 10, entries) {
            let at = 10 + w as int;
            if in_bounds(bytes, at, 12) {
                let count = u16_at(bytes, at + 10) as nat;
                lemma_methods_failures(bytes, at + 12, pool, count);
                if let Ok((_, width)) = spec_methods(bytes, at + 12, pool, count) {
                    lemma_attributes_failures(
                        bytes,
                        at + 14 + width,
                        pool,
                        u16_at(bytes, at + 12 + width) as nat,
                    );
                }
            }
        }
    }
}

/// A class that declares interfaces is rejected as soon as the count is
/// read: whatever follows the count, and whether anything follows it, makes
/// no difference.
pub proof fn lemma_interfaces_are_rejected(bytes: Seq<u8>)
    requires
        has_magic(bytes, 0),
        in_bounds(bytes, 4, 6),
        spec_constant_pool(bytes, 10, pool_entries(u16_at(bytes, 8))) is Ok,
        ({
            let flags_at = 10 + spec_constant_pool(
                bytes,
                10,
                pool_entries(u16_at(bytes, 8)),
            )->Ok_0.1 as int;
            in_bounds(bytes, flags_at, 8) && u16_at(bytes, flags_at + 6) != 0
        }),
    ensures
        spec_class_file(bytes) == Err::<ClassFileView, DecodeErrorView>(
            DecodeErrorView::UnsupportedFeature(INTERFACES@),
        ),
{
}

/// Checks that the magic number stands at the cursor, and moves past it.
/// Any other four bytes, or fewer than four, are
/// [`DecodeError::BadMagic`].
pub fn read_magic(bytecodes: &Vec<u8>, byte_idx: &mut usize) -> (r: Result<(), DecodeError>)
    ensures
        agrees(r, *old(byte_idx), *final(byte_idx), spec_magic(bytecodes@, *old(byte_idx) as int)),
        r is Ok <==> has_magic(bytecodes@, *old(byte_idx) as int),
        r matches Err(e) ==> e == DecodeError::BadMagic,
{
    let at: usize = *byte_idx;
    if !has_bytes(bytecodes, at, 4) {
        return Err(DecodeError::BadMagic);
    }
    if bytecodes[at] != MAGIC[0] || bytecodes[at + 1] != MAGIC[1] || bytecodes[at + 2] != MAGIC[2]
        || bytecodes[at + 3] != MAGIC[3] {
        return Err(DecodeError::BadMagic);
    }
    *byte_idx = at + 4;
    Ok(())
}

impl<'a> Class<'a> {
    /// A class of the given name with the given bytes.
    pub fn new(class_name: &'a String, buffer: Vec<u8>) -> (class: Class<'a>)
        ensures
            class.class_name == class_name,
            class.buffer == buffer,
    {
        Class { class_name, buffer }
    }

    /// Decodes the buffer. The result borrows from the buffer.
    ///
    /// Nothing is decoded in part: the first field that is malformed, cut
    /// short or not implemented fails the whole class.
    pub fn parse<'b>(&'b self) -> (r: Result<ClassFile<'b>, DecodeError>)
        ensures
            reports(r, spec_class_file(self.buffer@)),
            r matches Ok(class) ==> class_is_well_formed(class@),
    {
        let bytecodes = &self.buffer;
        let mut pos: usize = 0;
        read_magic(bytecodes, &mut pos)?;
        let minor_version = read_u16(bytecodes, &mut pos)?;
        let major_version = read_u16(bytecodes, &mut pos)?;
        let constant_pool_count = read_u16(bytecodes, &mut pos)?;
        let constant_pool = decode_constant_pool(bytecodes, &mut pos, constant_pool_count)?;
        let access_flags = read_u16(bytecodes, &mut pos)?;
        let this_class = read_u16(bytecodes, &mut pos)?;
        let super_class = read_u16(bytecodes, &mut pos)?;
        let interface_count = read_u16(bytecodes, &mut pos)?;
        if interface_count != 0 {
            return Err(DecodeError::UnsupportedFeature(INTERFACES.to_owned()));
        }
        let field_count = read_u16(bytecodes, &mut pos)?;
        if field_count != 0 {
            return Err(DecodeError::UnsupportedFeature(FIELDS.to_owned()));
        }
        let method_count = read_u16(bytecodes, &mut pos)?;
        let methods = decode_methods(bytecodes, &mut pos, &constant_pool, method_count)?;
        let attribute_count = read_u16(bytecodes, &mut pos)?;
        let attributes = decode_attributes(bytecodes, &mut pos, &constant_pool, attribute_count)?;
        Ok(
            ClassFile {
                minor_version,
                major_version,
                constant_pool_count,
                constant_pool,
                access_flags,
                this_class,
                super_class,
                methods,
                attributes,
            },
        )
    }
}

impl<'a> ClassFile<'a> {
    /// The constant pool, for symbolic resolution.
    pub fn constant_pool(&self) -> (pool: &HashMap<u16, ConstantPoolEntry<'a>>)
        ensures
            pool_view(pool@) == self@.constant_pool,
    {
        &self.constant_pool
    }

    /// The method called `name`, if the class has one. Of several methods of
    /// that name, the last in the file is returned.
    pub fn method(&self, name: &str) -> (r: Option<&Method<'a>>)
        ensures
            match spec_method_named(self@.methods, name@) {
                Some(method) => r matches Some(m) && m@ == method,
                None => r is None,
            },
    {
        let mut i: usize = self.methods.len();
        let ghost all = method_views(self.methods@);
        assert(all.take(i as int) =~= all);
        while i > 0
            invariant
                i <= self.methods.len(),
                all == method_views(self.methods@),
                spec_method_named(all, name@) == spec_method_named(all.take(i as int), name@),
            decreases i,
        {
            i = i - 1;
            assert(all.take(i + 1).drop_last() =~= all.take(i as int));
            if str_eq(self.methods[i].name, name) {
                return Some(&self.methods[i]);
            }
        }
        None
    }

    /// Whether the class has a method called `name`.
    pub fn has_method(&self, name: &str) -> (yes: bool)
        ensures
            yes == spec_method_named(self@.methods, name@).is_some(),
    {
        self.method(name).is_some()
    }
}

} // verus!
