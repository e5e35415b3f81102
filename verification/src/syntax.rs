//! The declarations of one program module, as the extractor reads them.
//!
//! A loader turns parsed source into these values: names, type expressions
//! and the tags and markers written on declarations, all as plain text.
//! Nothing here interprets them; that is the extractor's work.

use vstd::prelude::*;

verus! {

/// A type as written in a signature or a field.
#[derive(Debug, PartialEq, Eq)]
pub enum TypeExpr {
    /// A bare name, such as `u64` or `ProjectInfo`.
    Name(String),
    /// A name applied to one type argument, such as `Vec<u8>`.
    Apply(String, Box<TypeExpr>),
    /// A fixed-length array, such as `[u8; 32]`.
    Array(Box<TypeExpr>, u64),
    /// Any other type, by its source text. It resolves to nothing.
    Opaque(String),
}

/// Mathematical model of [`TypeExpr`].
pub enum TypeExprModel {
    Name(Seq<char>),
    Apply(Seq<char>, Box<TypeExprModel>),
    Array(Box<TypeExprModel>, u64),
    Opaque(Seq<char>),
}

/// The model of a type expression.
pub open spec fn type_expr_model(t: TypeExpr) -> TypeExprModel
    decreases t,
{
    match t {
        TypeExpr::Name(n) => TypeExprModel::Name(n@),
        TypeExpr::Apply(n, arg) => TypeExprModel::Apply(n@, Box::new(type_expr_model(*arg))),
        TypeExpr::Array(elem, len) => TypeExprModel::Array(Box::new(type_expr_model(*elem)), len),
        TypeExpr::Opaque(text) => TypeExprModel::Opaque(text@),
    }
}

impl DeepView for TypeExpr {
    type V = TypeExprModel;

    open spec fn deep_view(&self) -> TypeExprModel {
        type_expr_model(*self)
    }
}

/// One parameter of a function.
#[derive(Debug, PartialEq, Eq)]
pub struct Param {
    pub name: String,
    pub ty: TypeExpr,
}

/// Mathematical model of [`Param`].
pub struct ParamModel {
    pub name: Seq<char>,
    pub ty: TypeExprModel,
}

impl DeepView for Param {
    type V = ParamModel;

    open spec fn deep_view(&self) -> ParamModel {
        ParamModel { name: self.name@, ty: self.ty.deep_view() }
    }
}

/// One field of a record, with the markers written on it.
#[derive(Debug, PartialEq, Eq)]
pub struct FieldDecl {
    pub name: String,
    pub ty: TypeExpr,
    pub markers: Vec<String>,
}

/// Mathematical model of [`FieldDecl`].
pub struct FieldDeclModel {
    pub name: Seq<char>,
    pub ty: TypeExprModel,
    pub markers: Seq<Seq<char>>,
}

impl DeepView for FieldDecl {
    type V = FieldDeclModel;

    open spec fn deep_view(&self) -> FieldDeclModel {
        FieldDeclModel {
            name: self.name@,
            ty: self.ty.deep_view(),
            markers: self.markers.deep_view(),
        }
    }
}

/// A function declaration.
#[derive(Debug, PartialEq, Eq)]
pub struct FunctionDecl {
    pub name: String,
    pub is_public: bool,
    pub params: Vec<Param>,
}

/// Mathematical model of [`FunctionDecl`].
pub struct FunctionDeclModel {
    pub name: Seq<char>,
    pub is_public: bool,
    pub params: Seq<ParamModel>,
}

impl DeepView for FunctionDecl {
    type V = FunctionDeclModel;

    open spec fn deep_view(&self) -> FunctionDeclModel {
        FunctionDeclModel {
            name: self.name@,
            is_public: self.is_public,
            params: self.params.deep_view(),
        }
    }
}

/// A record declaration, with the tags written on it.
#[derive(Debug, PartialEq, Eq)]
pub struct RecordDecl {
    pub name: String,
    pub tags: Vec<String>,
    pub fields: Vec<FieldDecl>,
}

/// Mathematical model of [`RecordDecl`].
pub struct RecordDeclModel {
    pub name: Seq<char>,
    pub tags: Seq<Seq<char>>,
    pub fields: Seq<FieldDeclModel>,
}

impl DeepView for RecordDecl {
    type V = RecordDeclModel;

    open spec fn deep_view(&self) -> RecordDeclModel {
        RecordDeclModel {
            name: self.name@,
            tags: self.tags.deep_view(),
            fields: self.fields.deep_view(),
        }
    }
}

/// One variant of an enumeration, with the message written on it, if any.
#[derive(Debug, PartialEq, Eq)]
pub struct VariantDecl {
    pub name: String,
    pub message: Option<String>,
}

/// Mathematical model of [`VariantDecl`].
pub struct VariantDeclModel {
    pub name: Seq<char>,
    pub message: Option<Seq<char>>,
}

impl DeepView for VariantDecl {
    type V = VariantDeclModel;

    open spec fn deep_view(&self) -> VariantDeclModel {
        VariantDeclModel { name: self.name@, message: self.message.deep_view() }
    }
}

/// An enumeration declaration, with the tags written on it.
#[derive(Debug, PartialEq, Eq)]
pub struct EnumDecl {
    pub name: String,
    pub tags: Vec<String>,
    pub variants: Vec<VariantDecl>,
}

/// Mathematical model of [`EnumDecl`].
pub struct EnumDeclModel {
    pub name: Seq<char>,
    pub tags: Seq<Seq<char>>,
    pub variants: Seq<VariantDeclModel>,
}

impl DeepView for EnumDecl {
    type V = EnumDeclModel;

    open spec fn deep_view(&self) -> EnumDeclModel {
        EnumDeclModel {
            name: self.name@,
            tags: self.tags.deep_view(),
            variants: self.variants.deep_view(),
        }
    }
}

/// One top-level declaration of a module.
#[derive(Debug, PartialEq, Eq)]
pub enum Item {
    Function(FunctionDecl),
    Record(RecordDecl),
    Enumeration(EnumDecl),
    /// Anything else: imports, constants, implementations.
    Other,
}

/// Mathematical model of [`Item`].
pub enum ItemModel {
    Function(FunctionDeclModel),
    Record(RecordDeclModel),
    Enumeration(EnumDeclModel),
    Other,
}

impl DeepView for Item {
    type V = ItemModel;

    open spec fn deep_view(&self) -> ItemModel {
        match self {
            Item::Function(f) => ItemModel::Function(f.deep_view()),
            Item::Record(r) => ItemModel::Record(r.deep_view()),
            Item::Enumeration(e) => ItemModel::Enumeration(e.deep_view()),
            Item::Other => ItemModel::Other,
        }
    }
}

/// The declarations of one module, in source order.
#[derive(Debug, PartialEq, Eq)]
pub struct Module {
    pub items: Vec<Item>,
}

/// Mathematical model of [`Module`].
pub struct ModuleModel {
    pub items: Seq<ItemModel>,
}

impl DeepView for Module {
    type V = ModuleModel;

    open spec fn deep_view(&self) -> ModuleModel {
        ModuleModel { items: self.items.deep_view() }
    }
}

} // verus!
