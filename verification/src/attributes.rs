//! Attributes: the named blocks of metadata that hang on methods, on code
//! and on the class itself.
//!
//! An attribute starts with the index of its name in the constant pool. The
//! name selects the layout of what follows. Three names are known: `Code`,
//! `LineNumberTable` and `SourceFile`. Each layout starts with a 32-bit
//! length, which is recorded and otherwise ignored: the cursor is moved
//! field by field, by what was actually decoded.

use crate::constants::{pool_view, ConstantPoolEntry, ConstantView};
use crate::error::{agrees, DecodeError, DecodeErrorView, Decoded};
use crate::exceptions::{
    decode_exception_table, exception_entry_at, spec_exception_entry_text, ExceptionTableEntry,
};
use crate::reader::{
    has_bytes, in_bounds, read_slice, read_u16, read_u32, u16_at, u32_at,
};
use crate::resolution::{spec_text_at, text_at};
use crate::text::{decimal, push_decimal, str_eq};
use std::collections::HashMap;
use vstd::prelude::*;
use vstd::string::StringExecFns;

verus! {

/// An attribute of one of the three known kinds.
#[derive(Debug, PartialEq, Eq)]
pub enum Attribute<'a> {
    Code(CodeAttribute<'a>),
    LineNumberTable(LineNumberTableAttribute<'a>),
    SourceFile(SourceFileAttribute<'a>),
}

/// The code of a method. `code_slice` borrows the instructions from the
/// buffer: they are not copied.
#[derive(Debug, PartialEq, Eq)]
pub struct CodeAttribute<'a> {
    pub attr_name_idx: u16,
    pub attr_name: &'a str,
    pub attr_length: u32,
    pub max_stack: u16,
    pub max_locals: u16,
    pub code_length: usize,
    pub code_slice: &'a [u8],
    pub exception_table_length: usize,
    pub exception_table: Vec<ExceptionTableEntry>,
    pub attribute_count: u16,
    pub attributes: Vec<Attribute<'a>>,
}

/// The table that maps program counters to source lines.
#[derive(Debug, PartialEq, Eq)]
pub struct LineNumberTableAttribute<'a> {
    pub attr_name_idx: u16,
    pub attr_name: &'a str,
    pub attr_length: u32,
    pub line_number_table_length: u16,
    pub line_nbr_table_entries: Vec<LineNumberTableEntry>,
}

/// The name of the source file, as the index of a text constant.
#[derive(Debug, Clone, Copy, PartialEq, Eq)]
pub struct SourceFileAttribute<'a> {
    pub attr_name_idx: u16,
    pub attr_name: &'a str,
    pub attr_length: u32,
    pub src_file_idx: u16,
}

/// One line of the line-number table.
#[derive(Debug, Clone, Copy, PartialEq, Eq)]
pub struct LineNumberTableEntry {
    pub start_pc: u16,
    pub line_nbr: u16,
}

/// The mathematical value of an [`Attribute`].
pub enum AttributeView {
    Code(CodeAttributeView),
    LineNumberTable(LineNumberTableView),
    SourceFile(SourceFileView),
}

/// The mathematical value of a [`CodeAttribute`].
pub struct CodeAttributeView {
    pub attr_name_idx: u16,
    pub attr_name: Seq<char>,
    pub attr_length: u32,
    pub max_stack: u16,
    pub max_locals: u16,
    pub code_length: usize,
    pub code: Seq<u8>,
    pub exception_table_length: usize,
    pub exception_table: Seq<ExceptionTableEntry>,
    pub attribute_count: u16,
    pub attributes: Seq<AttributeView>,
}

/// The mathematical value of a [`LineNumberTableAttribute`].
pub struct LineNumberTableView {
    pub attr_name_idx: u16,
    pub attr_name: Seq<char>,
    pub attr_length: u32,
    pub line_number_table_length: u16,
    pub entries: Seq<LineNumberTableEntry>,
}

/// The mathematical value of a [`SourceFileAttribute`].
pub struct SourceFileView {
    pub attr_name_idx: u16,
    pub attr_name: Seq<char>,
    pub attr_length: u32,
    pub src_file_idx: u16,
}

impl<'a> View for SourceFileAttribute<'a> {
    type V = SourceFileView;

    open spec fn view(&self) -> SourceFileView {
        SourceFileView {
            attr_name_idx: self.attr_name_idx,
            attr_name: self.attr_name@,
            attr_length: self.attr_length,
            src_file_idx: self.src_file_idx,
        }
    }
}

impl<'a> View for LineNumberTableAttribute<'a> {
    type V = LineNumberTableView;

    open spec fn view(&self) -> LineNumberTableView {
        LineNumberTableView {
            attr_name_idx: self.attr_name_idx,
            attr_name: self.attr_name@,
            attr_length: self.attr_length,
            line_number_table_length: self.line_number_table_length,
            entries: self.line_nbr_table_entries@,
        }
    }
}

impl<'a> View for CodeAttribute<'a> {
    type V = CodeAttributeView;

    open spec fn view(&self) -> CodeAttributeView {
        code_view(*self)
    }
}

impl<'a> View for Attribute<'a> {
    type V = AttributeView;

    open spec fn view(&self) -> AttributeView {
        attribute_view(*self)
    }
}

/// The value of an attribute.
pub open spec fn attribute_view<'a>(attribute: Attribute<'a>) -> AttributeView
    decreases attribute,
{
    match attribute {
        Attribute::Code(code) => AttributeView::Code(code_view(code)),
        Attribute::LineNumberTable(table) => AttributeView::LineNumberTable(table@),
        Attribute::SourceFile(file) => AttributeView::SourceFile(file@),
    }
}

/// The value of a code attribute: its fields, with the values of the
/// attributes nested in it.
pub open spec fn code_view<'a>(code: CodeAttribute<'a>) -> CodeAttributeView
    decreases code,
{
    CodeAttributeView {
        attr_name_idx: code.attr_name_idx,
        attr_name: code.attr_name@,
        attr_length: code.attr_length,
        max_stack: code.max_stack,
        max_locals: code.max_locals,
        code_length: code.code_length,
        code: code.code_slice@,
        exception_table_length: code.exception_table_length,
        exception_table: code.exception_table@,
        attribute_count: code.attribute_count,
        attributes: attribute_views(code.attributes@),
    }
}

/// The values of a sequence of attributes, in order.
pub open spec fn attribute_views<'a>(attributes: Seq<Attribute<'a>>) -> Seq<AttributeView>
    decreases attributes,
{
    Seq::new(
        attributes.len(),
        |i: int|
            if 0 <= i < attributes.len() {
                attribute_view(attributes[i])
            } else {
                arbitrary()
            },
    )
}

/// Name of the attribute that holds a method's code.
pub const CODE: &'static str = "Code";

/// Name of the attribute that holds a line-number table.
pub const LINE_NUMBER_TABLE: &'static str = "LineNumberTable";

/// Name of the attribute that holds the source file's name.
pub const SOURCE_FILE: &'static str = "SourceFile";

/// The line-number entry whose four bytes start at `at`.
pub open spec fn line_number_entry_at(bytes: Seq<u8>, at: int) -> LineNumberTableEntry
    recommends
        in_bounds(bytes, at, 4),
{
    LineNumberTableEntry { start_pc: u16_at(bytes, at), line_nbr: u16_at(bytes, at + 2) }
}

/// The body of a `SourceFile` attribute at `at`: a 32-bit length and the
/// 16-bit index of the file's name.
pub open spec fn spec_source_file(
    attr_name_idx: u16,
    attr_name: Seq<char>,
    bytes: Seq<u8>,
    at: int,
) -> Decoded<SourceFileView> {
    if in_bounds(bytes, at, 6) {
        Ok(
            (
                SourceFileView {
                    attr_name_idx,
                    attr_name,
                    attr_length: u32_at(bytes, at),
                    src_file_idx: u16_at(bytes, at + 4),
                },
                6,
            ),
        )
    } else {
        Err(DecodeErrorView::Truncated)
    }
}

/// The body of a `LineNumberTable` attribute at `at`: a 32-bit length, a
/// 16-bit count `n`, and `n` entries of four bytes each.
pub open spec fn spec_line_number_table(
    attr_name_idx: u16,
    attr_name: Seq<char>,
    bytes: Seq<u8>,
    at: int,
) -> Decoded<LineNumberTableView> {
    if !in_bounds(bytes, at, 6) {
        Err(DecodeErrorView::Truncated)
    } else if !in_bounds(bytes, at + 6, 4 * u16_at(bytes, at + 4) as int) {
        Err(DecodeErrorView::Truncated)
    } else {
        let n = u16_at(bytes, at + 4);
        Ok(
            (
                LineNumberTableView {
                    attr_name_idx,
                    attr_name,
                    attr_length: u32_at(bytes, at),
                    line_number_table_length: n,
                    entries: Seq::new(
                        n as nat,
                        |i: int| line_number_entry_at(bytes, at + 6 + 4 * i),
                    ),
                },
                (6 + 4 * n) as nat,
            ),
        )
    }
}

/// The body of a `Code` attribute at `at`, in the order of the format: a
/// 32-bit length, the stack and locals limits, a 32-bit code length and the
/// code, the exception table behind its 16-bit count, and the nested
/// attributes behind theirs.
pub open spec fn spec_code_attribute(
    attr_name_idx: u16,
    attr_name: Seq<char>,
    bytes: Seq<u8>,
    at: int,
    pool: Map<u16, ConstantView>,
) -> Decoded<CodeAttributeView>
    decreases bytes.len() - at, 0nat,
{
    let code_length = u32_at(bytes, at + 8) as int;
    let table_at = at + 12 + code_length;
    let handlers = u16_at(bytes, table_at) as int;
    let count_at = table_at + 2 + 8 * handlers;
    if !in_bounds(bytes, at, 12) {
        Err(DecodeErrorView::Truncated)
    } else if !in_bounds(bytes, at + 12, code_length) {
        Err(DecodeErrorView::Truncated)
    } else if !in_bounds(bytes, table_at, 2) {
        Err(DecodeErrorView::Truncated)
    } else if !in_bounds(bytes, table_at + 2, 8 * handlers) {
        Err(DecodeErrorView::Truncated)
    } else if !in_bounds(bytes, count_at, 2) {
        Err(DecodeErrorView::Truncated)
    } else {
        match spec_attributes(bytes, count_at + 2, pool, u16_at(bytes, count_at) as nat) {
            Err(failure) => Err(failure),
            Ok((attributes, width)) => Ok(
                (
                    CodeAttributeView {
                        attr_name_idx,
                        attr_name,
                        attr_length: u32_at(bytes, at),
                        max_stack: u16_at(bytes, at + 4),
                        max_locals: u16_at(bytes, at + 6),
                        code_length: code_length as usize,
                        code: bytes.subrange(at + 12, table_at),
                        exception_table_length: handlers as usize,
                        exception_table: Seq::new(
                            handlers as nat,
                            |i: int| exception_entry_at(bytes, table_at + 2 + 8 * i),
                        ),
                        attribute_count: u16_at(bytes, count_at),
                        attributes,
                    },
                    (count_at + 2 + width - at) as nat,
                ),
            ),
        }
    }
}

/// The attribute at `at`: the 16-bit index of its name, which must be a text
/// in `pool`, then the body that the name selects. The body starts with a
/// 32-bit length whatever the name is, so the length must be there before
/// the name is looked at.
pub open spec fn spec_attribute(bytes: Seq<u8>, at: int, pool: Map<u16, ConstantView>) -> Decoded<
    AttributeView,
>
    decreases bytes.len() - at, 0nat,
{
    if !in_bounds(bytes, at, 2) {
        Err(DecodeErrorView::Truncated)
    } else {
        let attr_name_idx = u16_at(bytes, at);
        match spec_text_at(pool, attr_name_idx) {
            Err(failure) => Err(failure),
            Ok(attr_name) => if !in_bounds(bytes, at + 2, 4) {
                Err(DecodeErrorView::Truncated)
            } else if attr_name == CODE@ {
                match spec_code_attribute(attr_name_idx, attr_name, bytes, at + 2, pool) {
                    Err(failure) => Err(failure),
                    Ok((code, width)) => Ok((AttributeView::Code(code), 2 + width)),
                }
            } else if attr_name == LINE_NUMBER_TABLE@ {
                match spec_line_number_table(attr_name_idx, attr_name, bytes, at + 2) {
                    Err(failure) => Err(failure),
                    Ok((table, width)) => Ok((AttributeView::LineNumberTable(table), 2 + width)),
                }
            } else if attr_name == SOURCE_FILE@ {
                match spec_source_file(attr_name_idx, attr_name, bytes, at + 2) {
                    Err(failure) => Err(failure),
                    Ok((file, width)) => Ok((AttributeView::SourceFile(file), 2 + width)),
                }
            } else {
                Err(DecodeErrorView::UnsupportedAttribute(attr_name))
            },
        }
    }
}

/// The `count` attributes that follow each other from `at` on.
pub open spec fn spec_attributes(
    bytes: Seq<u8>,
    at: int,
    pool: Map<u16, ConstantView>,
    count: nat,
) -> Decoded<Seq<AttributeView>>
    decreases bytes.len() - at, count,
{
    if count == 0 {
        Ok((Seq::empty(), 0))
    } else {
        match spec_attributes(bytes, at, pool, (count - 1) as nat) {
            Err(failure) => Err(failure),
            Ok((attributes, width)) => if !in_bounds(bytes, at + width, 2) {
                Err(DecodeErrorView::Truncated)
            } else {
                match spec_attribute(bytes, at + width, pool) {
                    Err(failure) => Err(failure),
                    Ok((attribute, w)) => Ok((attributes.push(attribute), width + w)),
                }
            },
        }
    }
}

/// Once an attribute fails to decode, every longer list fails in the same
/// way.
pub proof fn lemma_attributes_failure_persists(
    bytes: Seq<u8>,
    at: int,
    pool: Map<u16, ConstantView>,
    count: nat,
    more: nat,
)
    requires
        count <= more,
        spec_attributes(bytes, at, pool, count) is Err,
    ensures
        spec_attributes(bytes, at, pool, more) == spec_attributes(bytes, at, pool, count),
    decreases more - count,
{
    if count < more {
        lemma_attributes_failure_persists(bytes, at, pool, count, (more - 1) as nat);
    }
}

/// The counts that an attribute records are the lengths of what it holds,
/// in the attribute itself and in every attribute nested in it.
pub open spec fn attribute_is_well_formed(attribute: AttributeView) -> bool
    decreases attribute,
{
    match attribute {
        AttributeView::Code(code) => {
            &&& code.code_length == code.code.len()
            &&& code.exception_table_length == code.exception_table.len()
            &&& code.attribute_count == code.attributes.len()
            &&& forall|i: int|
                0 <= i < code.attributes.len() ==> attribute_is_well_formed(
                    #[trigger] code.attributes[i],
                )
        },
        AttributeView::LineNumberTable(table) => table.line_number_table_length
            == table.entries.len(),
        AttributeView::SourceFile(_) => true,
    }
}

/// There are `count` attributes, each of them well formed.
pub open spec fn attributes_are_well_formed(attributes: Seq<AttributeView>, count: nat) -> bool {
    &&& attributes.len() == count
    &&& forall|i: int|
        0 <= i < attributes.len() ==> attribute_is_well_formed(#[trigger] attributes[i])
}

/// A decoded attribute is well formed and lies within the buffer.
pub proof fn lemma_decoded_attribute_is_well_formed(
    bytes: Seq<u8>,
    at: int,
    pool: Map<u16, ConstantView>,
)
    ensures
        spec_attribute(bytes, at, pool) matches Ok((attribute, width))
            ==> attribute_is_well_formed(attribute) && in_bounds(bytes, at, width as int),
    decreases bytes.len() - at, 0nat,
{
    if in_bounds(bytes, at, 2) {
        let attr_name_idx = u16_at(bytes, at);
        if let Ok(attr_name) = spec_text_at(pool, attr_name_idx) {
            if attr_name == CODE@ {
                lemma_decoded_code_is_well_formed(attr_name_idx, attr_name, bytes, at + 2, pool);
            }
        }
    }
}

/// A decoded `Code` attribute is well formed and lies within the buffer.
pub proof fn lemma_decoded_code_is_well_formed(
    attr_name_idx: u16,
    attr_name: Seq<char>,
    bytes: Seq<u8>,
    at: int,
    pool: Map<u16, ConstantView>,
)
    ensures
        spec_code_attribute(attr_name_idx, attr_name, bytes, at, pool) matches Ok((code, width))
            ==> attribute_is_well_formed(AttributeView::Code(code)) && in_bounds(
            bytes,
            at,
            width as int,
        ),
    decreases bytes.len() - at, 0nat,
{
    let code_length = u32_at(bytes, at + 8) as int;
    let table_at = at + 12 + code_length;
    let handlers = u16_at(bytes, table_at) as int;
    let count_at = table_at + 2 + 8 * handlers;
    if in_bounds(bytes, at, 12) && in_bounds(bytes, at + 12, code_length) && in_bounds(
        bytes,
        table_at,
        2,
    ) && in_bounds(bytes, table_at + 2, 8 * handlers) && in_bounds(bytes, count_at, 2) {
        lemma_decoded_attributes_are_well_formed(
            bytes,
            count_at + 2,
            pool,
            u16_at(bytes, count_at) as nat,
        );
    }
}

/// Decoded attributes are as many as were asked for, are well formed and
/// lie within the buffer.
pub proof fn lemma_decoded_attributes_are_well_formed(
    bytes: Seq<u8>,
    at: int,
    pool: Map<u16, ConstantView>,
    count: nat,
)
    ensures
        spec_attributes(bytes, at, pool, count) matches Ok((attributes, width))
            ==> attributes_are_well_formed(attributes, count) && (width == 0 || in_bounds(
            bytes,
            at,
            width as int,
        )),
    decreases bytes.len() - at, count,
{
    if count > 0 {
        lemma_decoded_attributes_are_well_formed(bytes, at, pool, (count - 1) as nat);
        if let Ok((_, width)) = spec_attributes(bytes, at, pool, (count - 1) as nat) {
            if in_bounds(bytes, at + width, 2) {
                lemma_decoded_attribute_is_well_formed(bytes, at + width, pool);
            }
        }
    }
}

/// The failures in which decoding an attribute can end: the buffer is cut
/// short, a name index holds no text, or a name is not known.
pub open spec fn is_attribute_failure(failure: DecodeErrorView) -> bool {
    failure is Truncated || failure is ExpectedUtf8 || failure is UnsupportedAttribute
}

/// Decoding an attribute fails in no other way than
/// [`is_attribute_failure`] says.
pub proof fn lemma_attribute_failures(bytes: Seq<u8>, at: int, pool: Map<u16, ConstantView>)
    ensures
        spec_attribute(bytes, at, pool) matches Err(failure) ==> is_attribute_failure(failure),
    decreases bytes.len() - at, 0nat,
{
    if in_bounds(bytes, at, 2) {
        let attr_name_idx = u16_at(bytes, at);
        if let Ok(attr_name) = spec_text_at(pool, attr_name_idx) {
            if attr_name == CODE@ {
                lemma_code_failures(attr_name_idx, attr_name, bytes, at + 2, pool);
            }
        }
    }
}

/// Decoding the body of a `Code` attribute fails in no other way than
/// [`is_attribute_failure`] says.
pub proof fn lemma_code_failures(
    attr_name_idx: u16,
    attr_name: Seq<char>,
    bytes: Seq<u8>,
    at: int,
    pool: Map<u16, ConstantView>,
)
    ensures
        spec_code_attribute(attr_name_idx, attr_name, bytes, at, pool) matches Err(failure)
            ==> is_attribute_failure(failure),
    decreases bytes.len() - at, 0nat,
{
    let code_length = u32_at(bytes, at + 8) as int;
    let table_at = at + 12 + code_length;
    let handlers = u16_at(bytes, table_at) as int;
    let count_at = table_at + 2 + 8 * handlers;
    if in_bounds(bytes, at, 12) && in_bounds(bytes, at + 12, code_length) && in_bounds(
        bytes,
        table_at,
        2,
    ) && in_bounds(bytes, table_at + 2, 8 * handlers) && in_bounds(bytes, count_at, 2) {
        lemma_attributes_failures(bytes, count_at + 2, pool, u16_at(bytes, count_at) as nat);
    }
}

/// Decoding a list of attributes fails in no other way than
/// [`is_attribute_failure`] says.
pub proof fn lemma_attributes_failures(
    bytes: Seq<u8>,
    at: int,
    pool: Map<u16, ConstantView>,
    count: nat,
)
    ensures
        spec_attributes(bytes, at, pool, count) matches Err(failure) ==> is_attribute_failure(
            failure,
        ),
    decreases bytes.len() - at, count,
{
    if count > 0 {
        lemma_attributes_failures(bytes, at, pool, (count - 1) as nat);
        if let Ok((_, width)) = spec_attributes(bytes, at, pool, (count - 1) as nat) {
            if in_bounds(bytes, at + width, 2) {
                lemma_attribute_failures(bytes, at + width, pool);
            }
        }
    }
}

/// The printable summary of a line-number entry.
pub open spec fn spec_line_number_entry_text(entry: LineNumberTableEntry) -> Seq<char> {
    "LineNumberTableEntry:\n\t\t\t\t- start_pc="@ + decimal(entry.start_pc as nat)
        + "\n\t\t\t\t- line_nbr="@ + decimal(entry.line_nbr as nat) + "\n"@
}

/// The summaries of the first `n` exception handlers, each behind its label.
pub open spec fn spec_handlers_text(table: Seq<ExceptionTableEntry>, n: nat) -> Seq<char>
    decreases n,
{
    if n == 0 {
        Seq::empty()
    } else {
        spec_handlers_text(table, (n - 1) as nat) + "\t\tException Handler:"@
            + spec_exception_entry_text(table[n - 1])
    }
}

/// The summaries of the first `n` line-number entries, each behind its
/// indentation.
pub open spec fn spec_lines_text(entries: Seq<LineNumberTableEntry>, n: nat) -> Seq<char>
    decreases n,
{
    if n == 0 {
        Seq::empty()
    } else {
        spec_lines_text(entries, (n - 1) as nat) + "\t\t\t"@ + spec_line_number_entry_text(
            entries[n - 1],
        )
    }
}

/// The summaries of the first `n` of `attributes`, each behind `label`.
pub open spec fn spec_attributes_text(
    attributes: Seq<AttributeView>,
    n: nat,
    label: Seq<char>,
) -> Seq<char>
    decreases attributes, n,
{
    if n == 0 || n > attributes.len() {
        Seq::empty()
    } else {
        spec_attributes_text(attributes, (n - 1) as nat, label) + label + spec_attribute_text(
            attributes[n - 1],
        )
    }
}

/// The printable summary of an attribute: its kind and its fields, one to a
/// line, then what it holds: for code the exception handlers and the nested
/// attributes, for a line-number table its entries.
pub open spec fn spec_attribute_text(attribute: AttributeView) -> Seq<char>
    decreases attribute,
{
    match attribute {
        AttributeView::Code(code) => "CodeAttribute:\n\t\t- attr_name_idx="@ + decimal(
            code.attr_name_idx as nat,
        ) + "\n\t\t- attr_length="@ + decimal(code.attr_length as nat) + "\n\t\t- max_stack="@
            + decimal(code.max_stack as nat) + "\n\t\t- max_locals="@ + decimal(
            code.max_locals as nat,
        ) + "\n\t\t- code_length="@ + decimal(code.code_length as nat)
            + "\n\t\t- exception_table_length="@ + decimal(code.exception_table_length as nat)
            + "\n\t\t- attribute_count="@ + decimal(code.attribute_count as nat) + "\n"@
            + spec_handlers_text(code.exception_table, code.exception_table.len())
            + spec_attributes_text(code.attributes, code.attributes.len(), "\t\tAttribute:"@),
        AttributeView::LineNumberTable(table) => "LineNumberTableAttribute:\n\t\t\t- attr_name_idx="@
            + decimal(table.attr_name_idx as nat) + "\n\t\t\t- attr_length="@ + decimal(
            table.attr_length as nat,
        ) + "\n\t\t\t- line_number_table_length="@ + decimal(
            table.line_number_table_length as nat,
        ) + "\n"@ + spec_lines_text(table.entries, table.entries.len()),
        AttributeView::SourceFile(file) => "SourceFileAttribute:\n\t- attr_name_idx="@ + decimal(
            file.attr_name_idx as nat,
        ) + "\n\t- attr_length="@ + decimal(file.attr_length as nat) + "\n\t- src_file_idx="@
            + decimal(file.src_file_idx as nat),
    }
}

impl LineNumberTableEntry {
    /// The printable summary of the entry.
    pub fn to_string(&self) -> (s: String)
        ensures
            s@ == spec_line_number_entry_text(*self),
    {
        let mut s = String::new();
        push_decimal(&mut s, "LineNumberTableEntry:\n\t\t\t\t- start_pc=", self.start_pc as u64);
        push_decimal(&mut s, "\n\t\t\t\t- line_nbr=", self.line_nbr as u64);
        s.append("\n");
        s
    }
}

/// Appends to `out` the summary of each of `attributes`, each behind
/// `label`.
pub fn push_attributes(out: &mut String, attributes: &Vec<Attribute>, label: &str)
    ensures
        final(out)@ == old(out)@ + spec_attributes_text(
            attribute_views(attributes@),
            attributes.len() as nat,
            label@,
        ),
    decreases attributes, 1nat,
{
    let ghost views = attribute_views(attributes@);
    let mut i: usize = 0;
    while i < attributes.len()
        invariant
            i <= attributes.len(),
            views == attribute_views(attributes@),
            out@ == old(out)@ + spec_attributes_text(views, i as nat, label@),
        decreases attributes.len() - i,
    {
        let text = attributes[i].to_string();
        out.append(label);
        out.append(text.as_str());
        i = i + 1;
    }
}

impl<'a> Attribute<'a> {
    /// The printable summary of the attribute.
    pub fn to_string(&self) -> (s: String)
        ensures
            s@ == spec_attribute_text(self@),
        decreases self, 0nat,
    {
        let mut s = String::new();
        match self {
            Attribute::Code(code) => {
                push_decimal(
                    &mut s,
                    "CodeAttribute:\n\t\t- attr_name_idx=",
                    code.attr_name_idx as u64,
                );
                push_decimal(&mut s, "\n\t\t- attr_length=", code.attr_length as u64);
                push_decimal(&mut s, "\n\t\t- max_stack=", code.max_stack as u64);
                push_decimal(&mut s, "\n\t\t- max_locals=", code.max_locals as u64);
                push_decimal(&mut s, "\n\t\t- code_length=", code.code_length as u64);
                push_decimal(
                    &mut s,
                    "\n\t\t- exception_table_length=",
                    code.exception_table_length as u64,
                );
                push_decimal(&mut s, "\n\t\t- attribute_count=", code.attribute_count as u64);
                s.append("\n");
                let ghost head = s@;
                let mut i: usize = 0;
                while i < code.exception_table.len()
                    invariant
                        i <= code.exception_table.len(),
                        s@ == head + spec_handlers_text(code.exception_table@, i as nat),
                    decreases code.exception_table.len() - i,
                {
                    let text = code.exception_table[i].to_string();
                    s.append("\t\tException Handler:");
                    s.append(text.as_str());
                    i = i + 1;
                }
                push_attributes(&mut s, &code.attributes, "\t\tAttribute:");
            },
            Attribute::LineNumberTable(table) => {
                push_decimal(
                    &mut s,
                    "LineNumberTableAttribute:\n\t\t\t- attr_name_idx=",
                    table.attr_name_idx as u64,
                );
                push_decimal(&mut s, "\n\t\t\t- attr_length=", table.attr_length as u64);
                push_decimal(
                    &mut s,
                    "\n\t\t\t- line_number_table_length=",
                    table.line_number_table_length as u64,
                );
                s.append("\n");
                let ghost head = s@;
                let mut i: usize = 0;
                while i < table.line_nbr_table_entries.len()
                    invariant
                        i <= table.line_nbr_table_entries.len(),
                        s@ == head + spec_lines_text(table.line_nbr_table_entries@, i as nat),
                    decreases table.line_nbr_table_entries.len() - i,
                {
                    let text = table.line_nbr_table_entries[i].to_string();
                    s.append("\t\t\t");
                    s.append(text.as_str());
                    i = i + 1;
                }
            },
            Attribute::SourceFile(file) => {
                push_decimal(
                    &mut s,
                    "SourceFileAttribute:\n\t- attr_name_idx=",
                    file.attr_name_idx as u64,
                );
                push_decimal(&mut s, "\n\t- attr_length=", file.attr_length as u64);
                push_decimal(&mut s, "\n\t- src_file_idx=", file.src_file_idx as u64);
            },
        }
        s
    }

    /// Decodes the attribute at the cursor.
    ///
    /// The name index must hold a text, else
    /// [`DecodeError::ExpectedUtf8`]. The length field must follow it. A
    /// name other than the three known ones is then reported as
    /// [`DecodeError::UnsupportedAttribute`] with that name.
    pub fn from_bytecodes(
        bytecodes: &'a Vec<u8>,
        byte_idx: &mut usize,
        constant_pool: &HashMap<u16, ConstantPoolEntry<'a>>,
    ) -> (r: Result<Attribute<'a>, DecodeError>)
        ensures
            agrees(
                r,
                *old(byte_idx),
                *final(byte_idx),
                spec_attribute(bytecodes@, *old(byte_idx) as int, pool_view(constant_pool@)),
            ),
            r matches Ok(attribute) ==> attribute_is_well_formed(attribute@),
            r is Ok ==> *final(byte_idx) <= bytecodes.len(),
        decreases bytecodes.len() - *old(byte_idx), 0nat,
    {
        proof {
            lemma_decoded_attribute_is_well_formed(
                bytecodes@,
                *byte_idx as int,
                pool_view(constant_pool@),
            );
        }
        let mut pos: usize = *byte_idx;
        let attr_name_idx = read_u16(bytecodes, &mut pos)?;
        let attr_name = text_at(constant_pool, attr_name_idx)?;
        if !has_bytes(bytecodes, pos, 4) {
            return Err(DecodeError::Truncated);
        }
        let attribute = if str_eq(attr_name, CODE) {
            Attribute::Code(
                CodeAttribute::from_bytecodes(
                    attr_name_idx,
                    attr_name,
                    bytecodes,
                    &mut pos,
                    constant_pool,
                )?,
            )
        } else if str_eq(attr_name, LINE_NUMBER_TABLE) {
            Attribute::LineNumberTable(
                LineNumberTableAttribute::from_bytecodes(
                    attr_name_idx,
                    attr_name,
                    bytecodes,
                    &mut pos,
                )?,
            )
        } else if str_eq(attr_name, SOURCE_FILE) {
            Attribute::SourceFile(
                SourceFileAttribute::from_bytecodes(attr_name_idx, attr_name, bytecodes, &mut pos)?,
            )
        } else {
            return Err(DecodeError::UnsupportedAttribute(attr_name.to_owned()));
        };
        *byte_idx = pos;
        Ok(attribute)
    }
}

impl<'a> CodeAttribute<'a> {
    /// Decodes the body of a `Code` attribute at the cursor. The exception
    /// table comes before the nested attributes, as the format has it.
    pub fn from_bytecodes(
        attr_name_idx: u16,
        attr_name: &'a str,
        bytecodes: &'a Vec<u8>,
        byte_idx: &mut usize,
        constant_pool: &HashMap<u16, ConstantPoolEntry<'a>>,
    ) -> (r: Result<CodeAttribute<'a>, DecodeError>)
        ensures
            agrees(
                r,
                *old(byte_idx),
                *final(byte_idx),
                spec_code_attribute(
                    attr_name_idx,
                    attr_name@,
                    bytecodes@,
                    *old(byte_idx) as int,
                    pool_view(constant_pool@),
                ),
            ),
            r matches Ok(code) ==> attribute_is_well_formed(AttributeView::Code(code@)),
            r is Ok ==> *final(byte_idx) <= bytecodes.len(),
        decreases bytecodes.len() - *old(byte_idx), 0nat,
    {
        proof {
            lemma_decoded_code_is_well_formed(
                attr_name_idx,
                attr_name@,
                bytecodes@,
                *byte_idx as int,
                pool_view(constant_pool@),
            );
        }
        let mut pos: usize = *byte_idx;
        let attr_length = read_u32(bytecodes, &mut pos)?;
        let max_stack = read_u16(bytecodes, &mut pos)?;
        let max_locals = read_u16(bytecodes, &mut pos)?;
        let code_length = read_u32(bytecodes, &mut pos)? as usize;
        let code_slice = read_slice(bytecodes, &mut pos, code_length)?;
        let handlers = read_u16(bytecodes, &mut pos)?;
        let exception_table = decode_exception_table(bytecodes, &mut pos, handlers)?;
        let attribute_count = read_u16(bytecodes, &mut pos)?;
        let attributes = decode_attributes(bytecodes, &mut pos, constant_pool, attribute_count)?;
        *byte_idx = pos;
        Ok(
            CodeAttribute {
                attr_name_idx,
                attr_name,
                attr_length,
                max_stack,
                max_locals,
                code_length,
                code_slice,
                exception_table_length: handlers as usize,
                exception_table,
                attribute_count,
                attributes,
            },
        )
    }
}

impl<'a> LineNumberTableAttribute<'a> {
    /// Decodes the body of a `LineNumberTable` attribute at the cursor.
    pub fn from_bytecodes(
        attr_name_idx: u16,
        attr_name: &'a str,
        bytecodes: &Vec<u8>,
        byte_idx: &mut usize,
    ) -> (r: Result<LineNumberTableAttribute<'a>, DecodeError>)
        ensures
            agrees(
                r,
                *old(byte_idx),
                *final(byte_idx),
                spec_line_number_table(
                    attr_name_idx,
                    attr_name@,
                    bytecodes@,
                    *old(byte_idx) as int,
                ),
            ),
            r is Ok ==> *final(byte_idx) <= bytecodes.len(),
    {
        let mut pos: usize = *byte_idx;
        let attr_length = read_u32(bytecodes, &mut pos)?;
        let line_number_table_length = read_u16(bytecodes, &mut pos)?;
        if !has_bytes(bytecodes, pos, 4 * (line_number_table_length as usize)) {
            return Err(DecodeError::Truncated);
        }
        let first: usize = pos;
        let mut line_nbr_table_entries: Vec<LineNumberTableEntry> = Vec::new();
        let mut i: u16 = 0;
        while i < line_number_table_length
            invariant
                i <= line_number_table_length,
                pos == first + 4 * i,
                in_bounds(bytecodes@, first as int, 4 * line_number_table_length as int),
                line_nbr_table_entries@.len() == i,
                forall|k: int|
                    0 <= k < i ==> line_nbr_table_entries@[k] == line_number_entry_at(
                        bytecodes@,
                        first + 4 * k,
                    ),
            decreases line_number_table_length - i,
        {
            let start_pc = read_u16(bytecodes, &mut pos)?;
            let line_nbr = read_u16(bytecodes, &mut pos)?;
            line_nbr_table_entries.push(LineNumberTableEntry { start_pc, line_nbr });
            i = i + 1;
        }
        assert(line_nbr_table_entries@ =~= Seq::new(
            line_number_table_length as nat,
            |k: int| line_number_entry_at(bytecodes@, first + 4 * k),
        ));
        *byte_idx = pos;
        Ok(
            LineNumberTableAttribute {
                attr_name_idx,
                attr_name,
                attr_length,
                line_number_table_length,
                line_nbr_table_entries,
            },
        )
    }
}

impl<'a> SourceFileAttribute<'a> {
    /// Decodes the body of a `SourceFile` attribute at the cursor.
    pub fn from_bytecodes(
        attr_name_idx: u16,
        attr_name: &'a str,
        bytecodes: &Vec<u8>,
        byte_idx: &mut usize,
    ) -> (r: Result<SourceFileAttribute<'a>, DecodeError>)
        ensures
            agrees(
                r,
                *old(byte_idx),
                *final(byte_idx),
                spec_source_file(attr_name_idx, attr_name@, bytecodes@, *old(byte_idx) as int),
            ),
            r is Ok ==> *final(byte_idx) <= bytecodes.len(),
    {
        let mut pos: usize = *byte_idx;
        let attr_length = read_u32(bytecodes, &mut pos)?;
        let src_file_idx = read_u16(bytecodes, &mut pos)?;
        *byte_idx = pos;
        Ok(SourceFileAttribute { attr_name_idx, attr_name, attr_length, src_file_idx })
    }
}

/// Decodes the `count` attributes at the cursor, in order.
pub fn decode_attributes<'a>(
    bytecodes: &'a Vec<u8>,
    byte_idx: &mut usize,
    constant_pool: &HashMap<u16, ConstantPoolEntry<'a>>,
    count: u16,
) -> (r: Result<Vec<Attribute<'a>>, DecodeError>)
    ensures
        match spec_attributes(
            bytecodes@,
            *old(byte_idx) as int,
            pool_view(constant_pool@),
            count as nat,
        ) {
            Ok((values, width)) => r matches Ok(attributes)
                && attribute_views(attributes@) == values
                && *final(byte_idx) == *old(byte_idx) + width,
            Err(failure) => r matches Err(e) && e@ == failure
                && *final(byte_idx) == *old(byte_idx),
        },
        r matches Ok(attributes) ==> attributes_are_well_formed(
            attribute_views(attributes@),
            count as nat,
        ),
        r is Ok && *old(byte_idx) <= bytecodes.len() ==> *final(byte_idx) <= bytecodes.len(),
    decreases bytecodes.len() - *old(byte_idx), count,
{
    proof {
        lemma_decoded_attributes_are_well_formed(
            bytecodes@,
            *byte_idx as int,
            pool_view(constant_pool@),
            count as nat,
        );
    }
    let start: usize = *byte_idx;
    let mut attributes: Vec<Attribute<'a>> = Vec::new();
    let mut pos: usize = start;
    let mut i: u16 = 0;
    assert(attribute_views(attributes@) =~= Seq::<AttributeView>::empty());
    while i < count
        invariant
            i <= count,
            start == *old(byte_idx),
            *byte_idx == start,
            pos >= start,
            pos > start || start <= bytecodes.len() ==> pos <= bytecodes.len(),
            spec_attributes(bytecodes@, start as int, pool_view(constant_pool@), i as nat) == Ok::<
                (Seq<AttributeView>, nat),
                DecodeErrorView,
            >((attribute_views(attributes@), (pos - start) as nat)),
        decreases count - i,
    {
        let attribute = match Attribute::from_bytecodes(bytecodes, &mut pos, constant_pool) {
            Ok(attribute) => attribute,
            Err(failure) => {
                proof {
                    lemma_attributes_failure_persists(
                        bytecodes@,
                        start as int,
                        pool_view(constant_pool@),
                        (i + 1) as nat,
                        count as nat,
                    );
                }
                return Err(failure);
            },
        };
        let ghost before = attributes@;
        attributes.push(attribute);
        assert(attribute_views(attributes@) =~= attribute_views(before).push(attribute@));
        i = i + 1;
    }
    *byte_idx = pos;
    Ok(attributes)
}

} // verus!
