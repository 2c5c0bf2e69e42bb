//! The abstract syntax tree: passive data produced by the parser and
//! consumed by the renderers, together with the spec-level views that
//! the contracts of both stages are stated over.

use vstd::prelude::*;

verus! {

/// A data type a field can have.
///
/// `Custom` carries a referenced identifier verbatim; `Unspecified`
/// records that no type was written at all.
#[derive(Debug)]
pub enum DataType {
    Number,
    Text,
    Boolean,
    Custom(String),
    Unspecified,
}

/// Spec-level view of [`DataType`].
pub enum DataTypeV {
    Number,
    Text,
    Boolean,
    Custom(Seq<char>),
    Unspecified,
}

impl View for DataType {
    type V = DataTypeV;

    open spec fn view(&self) -> DataTypeV {
        match self {
            DataType::Number => DataTypeV::Number,
            DataType::Text => DataTypeV::Text,
            DataType::Boolean => DataTypeV::Boolean,
            DataType::Custom(s) => DataTypeV::Custom(s@),
            DataType::Unspecified => DataTypeV::Unspecified,
        }
    }
}

/// A field's name as written in the source.
#[derive(Debug)]
pub struct FieldName(pub String);

impl View for FieldName {
    type V = Seq<char>;

    open spec fn view(&self) -> Seq<char> {
        self.0@
    }
}

/// Whether a field holds one value of its data type or a list of them.
#[derive(Debug)]
pub enum FieldType {
    One(DataType),
    List(DataType),
}

/// Spec-level view of [`FieldType`].
pub enum FieldTypeV {
    One(DataTypeV),
    List(DataTypeV),
}

impl View for FieldType {
    type V = FieldTypeV;

    open spec fn view(&self) -> FieldTypeV {
        match self {
            FieldType::One(d) => FieldTypeV::One(d@),
            FieldType::List(d) => FieldTypeV::List(d@),
        }
    }
}

/// One tag entry from a backtick block, such as `json:"country"`.
///
/// Entries are kept in source order; when a key occurs twice the last
/// entry wins, so the list acts as a mapping.
#[derive(Debug)]
pub struct Tag {
    pub key: String,
    pub value: String,
}

/// Spec-level view of [`Tag`].
pub struct TagV {
    pub key: Seq<char>,
    pub value: Seq<char>,
}

impl View for Tag {
    type V = TagV;

    open spec fn view(&self) -> TagV {
        TagV { key: self.key@, value: self.value@ }
    }
}

/// One member of a struct body.
#[derive(Debug)]
pub enum Field {
    /// Produces no output; used for skipped or no-op statements.
    Blank,
    /// A bare type reference with no field name: struct embedding.
    Embedded(String),
    /// A named field with a type and no tag metadata.
    Plain(FieldName, FieldType),
    /// A named field with a type and a tag mapping.
    WithTags(FieldName, FieldType, Vec<Tag>),
}

/// Spec-level view of [`Field`].
pub enum FieldV {
    Blank,
    Embedded(Seq<char>),
    Plain(Seq<char>, FieldTypeV),
    WithTags(Seq<char>, FieldTypeV, Seq<TagV>),
}

/// The views of a sequence of tags.
pub open spec fn tags_view(s: Seq<Tag>) -> Seq<TagV> {
    s.map_values(|t: Tag| t@)
}

impl View for Field {
    type V = FieldV;

    open spec fn view(&self) -> FieldV {
        match self {
            Field::Blank => FieldV::Blank,
            Field::Embedded(name) => FieldV::Embedded(name@),
            Field::Plain(name, t) => FieldV::Plain(name@, t@),
            Field::WithTags(name, t, tags) => FieldV::WithTags(name@, t@, tags_view(tags@)),
        }
    }
}

/// The views of a sequence of fields.
pub open spec fn fields_view(s: Seq<Field>) -> Seq<FieldV> {
    s.map_values(|f: Field| f@)
}

/// A struct declaration: a name and its members in source order.
#[derive(Debug)]
pub struct StructDeclaration {
    pub name: String,
    pub body: Vec<Field>,
}

/// Spec-level view of [`StructDeclaration`].
pub struct StructDeclarationV {
    pub name: Seq<char>,
    pub body: Seq<FieldV>,
}

impl View for StructDeclaration {
    type V = StructDeclarationV;

    open spec fn view(&self) -> StructDeclarationV {
        StructDeclarationV { name: self.name@, body: fields_view(self.body@) }
    }
}

/// A top-level item of a parse: either a struct declaration or a field
/// that appeared outside any declaration.
#[derive(Debug)]
pub enum AST {
    Declaration(StructDeclaration),
    Field(Field),
}

/// Spec-level view of [`AST`].
pub enum ASTV {
    Declaration(StructDeclarationV),
    Field(FieldV),
}

impl View for AST {
    type V = ASTV;

    open spec fn view(&self) -> ASTV {
        match self {
            AST::Declaration(d) => ASTV::Declaration(d@),
            AST::Field(f) => ASTV::Field(f@),
        }
    }
}

/// The views of a sequence of top-level items.
pub open spec fn asts_view(s: Seq<AST>) -> Seq<ASTV> {
    s.map_values(|a: AST| a@)
}

/// An owned copy of a data type.
pub fn clone_data_type(d: &DataType) -> (r: DataType)
    ensures
        r@ == d@,
{
    match d {
        DataType::Number => DataType::Number,
        DataType::Text => DataType::Text,
        DataType::Boolean => DataType::Boolean,
        DataType::Custom(s) => DataType::Custom(s.clone()),
        DataType::Unspecified => DataType::Unspecified,
    }
}

} // verus!
