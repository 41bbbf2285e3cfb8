//! The output model: one tagged entry per extracted type declaration,
//! together with the spec-level views the contracts speak of.

use vstd::prelude::*;

verus! {

/// One entry of the output sequence: a type alias, a structure, an
/// enumeration or a union.
#[derive(Clone, Debug, PartialEq, Eq, Hash)]
pub enum Types {
    TypeDefType(TypeDefType),
    StructType(StructType),
    EnumType(EnumType),
    UnionType(UnionType),
}

/// A type alias: `typedef underlying name;`.
#[derive(Clone, Debug, PartialEq, Eq, Hash)]
pub struct TypeDefType {
    pub name: String,
    /// The textual rendering of the aliased type, as the front end reports it.
    pub underlying: String,
}

/// A structure with its members in declaration order.
#[derive(Clone, Debug, PartialEq, Eq, Hash)]
pub struct StructType {
    pub name: String,
    pub fields: Vec<StructField>,
}

/// One structure member: its name and the textual rendering of its type.
#[derive(Clone, Debug, PartialEq, Eq, Hash)]
pub struct StructField {
    pub name: String,
    pub type_: String,
}

/// An enumeration with its constants in declaration order.
#[derive(Clone, Debug, PartialEq, Eq, Hash)]
pub struct EnumType {
    pub name: String,
    pub fields: Vec<EnumField>,
}

/// One enumerator constant. Its value is recorded as a signed 64-bit
/// integer whatever the underlying type of the enumeration is declared as.
#[derive(Clone, Debug, PartialEq, Eq, Hash)]
pub struct EnumField {
    pub name: String,
    pub value: i64,
}

/// A union with its members in declaration order.
#[derive(Clone, Debug, PartialEq, Eq, Hash)]
pub struct UnionType {
    pub name: String,
    pub fields: Vec<UnionField>,
}

/// One union member: its name and the textual rendering of its type.
#[derive(Clone, Debug, PartialEq, Eq, Hash)]
pub struct UnionField {
    pub name: String,
    pub type_: String,
}

/// The one failure of extraction: the front end handed a node that breaks
/// its own guarantees (a member, alias or enumerator constant without a
/// name, an alias or member without a type, an enumerator constant without
/// a value). The caller treats it as fatal.
#[derive(Clone, Copy, Debug, PartialEq, Eq, Structural)]
pub enum ExtractError {
    ProviderContract,
}

/// Spec view of [`Types`].
pub enum TypesV {
    TypeDefType(TypeDefTypeV),
    StructType(StructTypeV),
    EnumType(EnumTypeV),
    UnionType(UnionTypeV),
}

/// Spec view of [`TypeDefType`].
pub struct TypeDefTypeV {
    pub name: Seq<char>,
    pub underlying: Seq<char>,
}

/// Spec view of [`StructField`] and [`UnionField`].
pub struct FieldV {
    pub name: Seq<char>,
    pub type_: Seq<char>,
}

/// Spec view of [`StructType`].
pub struct StructTypeV {
    pub name: Seq<char>,
    pub fields: Seq<FieldV>,
}

/// Spec view of [`EnumField`].
pub struct EnumFieldV {
    pub name: Seq<char>,
    pub value: i64,
}

/// Spec view of [`EnumType`].
pub struct EnumTypeV {
    pub name: Seq<char>,
    pub fields: Seq<EnumFieldV>,
}

/// Spec view of [`UnionType`].
pub struct UnionTypeV {
    pub name: Seq<char>,
    pub fields: Seq<FieldV>,
}

impl View for StructField {
    type V = FieldV;

    open spec fn view(&self) -> FieldV {
        FieldV { name: self.name@, type_: self.type_@ }
    }
}

impl View for UnionField {
    type V = FieldV;

    open spec fn view(&self) -> FieldV {
        FieldV { name: self.name@, type_: self.type_@ }
    }
}

impl View for EnumField {
    type V = EnumFieldV;

    open spec fn view(&self) -> EnumFieldV {
        EnumFieldV { name: self.name@, value: self.value }
    }
}

impl View for TypeDefType {
    type V = TypeDefTypeV;

    open spec fn view(&self) -> TypeDefTypeV {
        TypeDefTypeV { name: self.name@, underlying: self.underlying@ }
    }
}

impl View for StructType {
    type V = StructTypeV;

    open spec fn view(&self) -> StructTypeV {
        StructTypeV { name: self.name@, fields: self.fields@.map_values(|f: StructField| f@) }
    }
}

impl View for EnumType {
    type V = EnumTypeV;

    open spec fn view(&self) -> EnumTypeV {
        EnumTypeV { name: self.name@, fields: self.fields@.map_values(|f: EnumField| f@) }
    }
}

impl View for UnionType {
    type V = UnionTypeV;

    open spec fn view(&self) -> UnionTypeV {
        UnionTypeV { name: self.name@, fields: self.fields@.map_values(|f: UnionField| f@) }
    }
}

impl View for Types {
    type V = TypesV;

    open spec fn view(&self) -> TypesV {
        match self {
            Types::TypeDefType(t) => TypesV::TypeDefType(t@),
            Types::StructType(t) => TypesV::StructType(t@),
            Types::EnumType(t) => TypesV::EnumType(t@),
            Types::UnionType(t) => TypesV::UnionType(t@),
        }
    }
}

/// The name an entry carries, whichever variant it is. Every emitted entry
/// is named; anonymous declarations that no alias names are never emitted.
pub open spec fn entry_name(t: TypesV) -> Seq<char> {
    match t {
        TypesV::TypeDefType(e) => e.name,
        TypesV::StructType(e) => e.name,
        TypesV::EnumType(e) => e.name,
        TypesV::UnionType(e) => e.name,
    }
}

} // verus!
