//! What the library reads of a parsed class file, as plain values.

use vstd::prelude::*;

use crate::inspect::classfile::nesting::{annotation_nesting, MAX_NESTING};
use crate::inspect::classfile::pool_layout::pool_overflow;

use java_class_rs::{
    parse_classfile, parse_specialized_attribute, AttributeInfo, ConstantPoolEntry, ElementValue, ParsedAttribute,
    Utf8Info,
};

verus! {

/// A constant pool entry, with the indices the queries follow.
#[derive(Debug, Clone, PartialEq, Eq)]
pub enum PoolEntry {
    Utf8(String),
    /// The index of the class name.
    Class(u16),
    /// Class index and name-and-type index.
    Fieldref(u16, u16),
    /// Class index and name-and-type index.
    Methodref(u16, u16),
    /// Class index and name-and-type index.
    InterfaceMethodref(u16, u16),
    /// Name index and descriptor index.
    NameAndType(u16, u16),
    Long,
    Double,
    Other,
}

/// An element of an array annotation value.
#[derive(Debug, Clone, Copy, PartialEq, Eq, Structural)]
pub enum ElemItem {
    /// Index of a class descriptor.
    Class(u16),
    /// Index of a string constant.
    Str(u16),
    Other,
}

/// An annotation element value.
#[derive(Debug, Clone, PartialEq, Eq)]
pub enum ElemValue {
    /// Index of a class descriptor.
    Class(u16),
    /// Index of a string constant.
    Str(u16),
    Array(Vec<ElemItem>),
    Other,
}

/// A named element of an annotation.
#[derive(Debug, Clone, PartialEq, Eq)]
pub struct ElementPair {
    pub name_index: u16,
    pub value: ElemValue,
}

/// A class-level annotation: its type descriptor index and its elements.
#[derive(Debug, Clone, PartialEq, Eq)]
pub struct ClassAnnotation {
    pub type_index: u16,
    pub pairs: Vec<ElementPair>,
}

/// A class attribute as the class file stores it: the pool index of its
/// name and its bytes.
#[derive(Debug, Clone, PartialEq, Eq)]
pub struct RawAttribute {
    pub name_index: u16,
    pub info: Vec<u8>,
}

/// What an attribute is read into; only annotation tables are kept.
#[derive(Debug, Clone, PartialEq, Eq)]
pub enum ClassAttribute {
    VisibleAnnotations(Vec<ClassAnnotation>),
    InvisibleAnnotations(Vec<ClassAnnotation>),
    Other,
}

/// A parsed class file.
#[derive(Debug, Clone, PartialEq, Eq)]
pub struct ClassModel {
    pub minor_version: u16,
    pub major_version: u16,
    /// The access flag bits.
    pub access_flags: u16,
    pub constant_pool: Vec<PoolEntry>,
    pub attributes: Vec<RawAttribute>,
}

#[verifier::external_type_specification]
#[verifier::external_body]
pub struct ExConstantPoolEntry(ConstantPoolEntry);

#[verifier::external_type_specification]
#[verifier::external_body]
pub struct ExElementValue(ElementValue);

#[verifier::external_type_specification]
#[verifier::external_body]
pub struct ExAnnotation(java_class_rs::Annotation);

#[verifier::external_type_specification]
#[verifier::external_body]
pub struct ExParsedAttribute(ParsedAttribute);

/// The class that `java_class_rs::parse_classfile` reads from `bytes`, its
/// attributes kept as stored; `None` when the bytes are not a class file it
/// accepts.
pub uninterp spec fn class_model(bytes: Seq<u8>) -> Option<ClassModel>;

/// What `java_class_rs::parse_specialized_attribute` reads from an attribute
/// with the given name and bytes.
pub uninterp spec fn attribute_model(name: Seq<char>, info: Seq<u8>) -> ClassAttribute;

/// One constant pool entry of `java_class_rs`, variant for variant.
#[verifier::external_body]
fn pool_entry_of(e: &ConstantPoolEntry) -> PoolEntry {
    match e {
        ConstantPoolEntry::Utf8(u) => PoolEntry::Utf8(u.value.clone()),
        ConstantPoolEntry::Class(c) => PoolEntry::Class(c.name_index),
        ConstantPoolEntry::Fieldref(r) => PoolEntry::Fieldref(r.class_index, r.name_and_type_index),
        ConstantPoolEntry::Methodref(r) => PoolEntry::Methodref(r.class_index, r.name_and_type_index),
        ConstantPoolEntry::InterfaceMethodref(r) => PoolEntry::InterfaceMethodref(r.class_index, r.name_and_type_index),
        ConstantPoolEntry::NameAndType(n) => PoolEntry::NameAndType(n.name_index, n.descriptor_index),
        ConstantPoolEntry::Long(_) => PoolEntry::Long,
        ConstantPoolEntry::Double(_) => PoolEntry::Double,
        _ => PoolEntry::Other,
    }
}

/// One element of an array value of `java_class_rs`.
#[verifier::external_body]
fn elem_item_of(v: &ElementValue) -> ElemItem {
    match v {
        ElementValue::Class { class_info_index } => ElemItem::Class(*class_info_index),
        ElementValue::String { const_value_index } => ElemItem::Str(*const_value_index),
        _ => ElemItem::Other,
    }
}

/// An element value of `java_class_rs`.
#[verifier::external_body]
fn elem_value_of(v: &ElementValue) -> ElemValue {
    match v {
        ElementValue::Class { class_info_index } => ElemValue::Class(*class_info_index),
        ElementValue::String { const_value_index } => ElemValue::Str(*const_value_index),
        ElementValue::Array { values } => ElemValue::Array(values.iter().map(elem_item_of).collect()),
        _ => ElemValue::Other,
    }
}

/// An annotation of `java_class_rs`.
#[verifier::external_body]
fn annotation_of(a: &java_class_rs::Annotation) -> ClassAnnotation {
    let pairs = a.element_value_pairs.iter();
    ClassAnnotation {
        type_index: a.type_index,
        pairs: pairs.map(|(n, v)| ElementPair { name_index: *n, value: elem_value_of(v) }).collect(),
    }
}

/// A specialised attribute of `java_class_rs`.
#[verifier::external_body]
fn attribute_of(a: ParsedAttribute) -> ClassAttribute {
    match a {
        ParsedAttribute::RuntimeVisibleAnnotations(t) => ClassAttribute::VisibleAnnotations(t.annotations.iter().map(annotation_of).collect()),
        ParsedAttribute::RuntimeInvisibleAnnotations(t) => ClassAttribute::InvisibleAnnotations(t.annotations.iter().map(annotation_of).collect()),
        _ => ClassAttribute::Other,
    }
}

/// Parses a class file with `java_class_rs::parse_classfile`; the result
/// is `class_model` of the bytes, a function of the bytes alone. It counts
/// constant pool slots in a `u16`, which overflows when a pool of count
/// `0xFFFF` holds a long or double in slot `0xFFFE`; such bytes are left out.
#[verifier::external_body]
pub(crate) fn parse_class(bytes: &[u8]) -> (r: Option<ClassModel>)
    requires
        !pool_overflow(bytes@),
    ensures
        r == class_model(bytes@),
{
    match parse_classfile(bytes) {
        Ok((_, cf)) => Some(ClassModel {
            minor_version: cf.minor_version,
            major_version: cf.major_version,
            access_flags: cf.access_flags.bits(),
            constant_pool: cf.constant_pool.iter().map(pool_entry_of).collect(),
            attributes: cf.attributes.iter().map(|a| RawAttribute { name_index: a.attribute_name_index, info: a.info.clone() }).collect(),
        }),
        Err(_) => None,
    }
}

/// Reads an attribute with `java_class_rs::parse_specialized_attribute`;
/// the result is `attribute_model` of its name and bytes. That function
/// reads its constant pool argument only to look up the attribute's name,
/// so a pool holding just the name stands in for the class's pool. It reads
/// element values recursively, one call deeper per nested value, so an
/// annotation table whose values nest deeper than `MAX_NESTING` is left out.
#[verifier::external_body]
pub(crate) fn parse_attribute(name: &str, info: &[u8]) -> (r: ClassAttribute)
    requires
        annotation_nesting(info@) <= MAX_NESTING,
    ensures
        r == attribute_model(name@, info@),
{
    let attr = AttributeInfo { attribute_name_index: 1, info: info.to_vec() };
    let pool = [ConstantPoolEntry::Utf8(Utf8Info { value: name.to_owned() })];
    attribute_of(parse_specialized_attribute(&attr, &pool))
}

} // verus!
