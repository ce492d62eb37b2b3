//! The parsed form of the item a derive is applied to.
//!
//! These types hold, as plain values, exactly what the derives read from the
//! item: names, the structure of field types, attribute arguments, and the
//! source text of every expression or type that ends up in the generated code.
//! Source text is kept as it is printed from the token stream, so it can be
//! pasted into generated code unchanged.
//!
//! Every syntax node that a diagnostic may point at carries a `site`: an
//! opaque number by which the caller finds the node's span again.
use vstd::prelude::*;

verus! {

/// A diagnostic: the message and the site it points at.
#[derive(Debug)]
pub struct DeriveError {
    pub message: String,
    pub site: usize,
}

/// What a diagnostic says, as plain values.
pub struct ErrorView {
    pub message: Seq<char>,
    pub site: usize,
}

impl View for DeriveError {
    type V = ErrorView;

    open spec fn view(&self) -> ErrorView {
        ErrorView { message: self.message@, site: self.site }
    }
}

/// A result whose error is taken by its view.
pub open spec fn outcome<T>(r: Result<T, DeriveError>) -> Result<T, ErrorView> {
    match r {
        Ok(t) => Ok(t),
        Err(e) => Err(e@),
    }
}

/// The error that a spec function describes.
pub open spec fn fail<T>(message: Seq<char>, site: usize) -> Result<T, ErrorView> {
    Err(ErrorView { message, site })
}

/// A path such as `::a::b<T>::c`.
#[derive(Debug)]
pub struct PathSyntax {
    /// Whether the path starts with `::`.
    pub leading_colon: bool,
    pub segments: Vec<PathSegmentSyntax>,
}

/// One segment of a path: its name and its generic arguments.
#[derive(Debug)]
pub struct PathSegmentSyntax {
    pub ident: String,
    pub arguments: PathArgumentsSyntax,
}

/// The generic arguments of a path segment.
#[derive(Debug)]
pub enum PathArgumentsSyntax {
    NoArguments,
    /// `<A, B>` (or `::<A, B>`).
    AngleBracketed {
        args: Vec<GenericArgumentSyntax>,
        /// The arguments alone, as written between the brackets.
        args_tokens: String,
        /// The whole argument list, brackets (and a leading `::`) included.
        tokens: String,
    },
    /// `(A, B) -> C`.
    Parenthesized { tokens: String },
}

/// One generic argument.
#[derive(Debug)]
pub enum GenericArgumentSyntax {
    Type(TypeSyntax),
    /// A lifetime, constant, binding or constraint.
    Other { tokens: String },
}

/// The kinds of type that the derives do not support.
#[derive(Debug, Clone, Copy, PartialEq, Eq)]
pub enum OtherTypeKind {
    BareFn,
    Group,
    ImplTrait,
    Infer,
    Macro,
    Never,
    Paren,
    Ptr,
    Reference,
    Slice,
    TraitObject,
    Verbatim,
    Unknown,
}

/// The type of a field.
#[derive(Debug)]
pub enum TypeSyntax {
    /// `[elem; len]`
    Array { elem: Box<TypeSyntax>, len: String, tokens: String },
    /// A path type such as `u16` or `heapless::Vec<u8, 32>`.
    Path { path: PathSyntax, tokens: String },
    /// `(A, B, ..)`
    Tuple { elems: Vec<TypeSyntax>, tokens: String },
    Other { kind: OtherTypeKind, tokens: String },
}

impl TypeSyntax {
    /// The type as source text.
    pub open spec fn text(self) -> Seq<char> {
        match self {
            TypeSyntax::Array { tokens, .. } => tokens@,
            TypeSyntax::Path { tokens, .. } => tokens@,
            TypeSyntax::Tuple { tokens, .. } => tokens@,
            TypeSyntax::Other { tokens, .. } => tokens@,
        }
    }

    pub fn tokens(&self) -> (s: &String)
        ensures
            s@ == self.text(),
    {
        match self {
            TypeSyntax::Array { tokens, .. } => tokens,
            TypeSyntax::Path { tokens, .. } => tokens,
            TypeSyntax::Tuple { tokens, .. } => tokens,
            TypeSyntax::Other { tokens, .. } => tokens,
        }
    }
}

/// One `key = value` argument of an attribute such as `#[byte(len = u8)]`.
#[derive(Debug)]
pub struct NameValueSyntax {
    pub path: PathSyntax,
    /// The value expression as source text.
    pub value: String,
    /// The value when the expression is a `bool` literal.
    pub value_bool: Option<bool>,
    /// The site of the whole argument.
    pub site: usize,
    /// The site of the value expression.
    pub value_site: usize,
}

/// The arguments of an attribute.
#[derive(Debug)]
pub enum MetaSyntax {
    /// `#[path]`
    Path,
    /// `#[path(..)]`, with what its arguments read as.
    List {
        /// The arguments read as a comma separated list of `key = value`.
        name_values: Result<Vec<NameValueSyntax>, DeriveError>,
        /// The arguments read as a single type.
        as_type: Result<String, DeriveError>,
    },
    /// `#[path = value]`
    NameValue,
}

/// An outer attribute.
#[derive(Debug)]
pub struct AttributeSyntax {
    pub path: PathSyntax,
    pub meta: MetaSyntax,
    pub site: usize,
}

/// A field of a struct or of an enum variant.
#[derive(Debug)]
pub struct FieldSyntax {
    pub attrs: Vec<AttributeSyntax>,
    /// The field's name; empty for a field of a tuple struct or tuple variant.
    pub ident: String,
    pub ty: TypeSyntax,
}

/// The fields of a struct or of an enum variant.
#[derive(Debug)]
pub enum FieldsSyntax {
    Named(Vec<FieldSyntax>),
    Unnamed(Vec<FieldSyntax>),
    Unit,
}

/// A variant of an enum.
#[derive(Debug)]
pub struct VariantSyntax {
    pub ident: String,
    /// The expression after `=`, if any.
    pub discriminant: Option<String>,
    pub fields: FieldsSyntax,
}

/// A struct item.
#[derive(Debug)]
pub struct StructSyntax {
    pub attrs: Vec<AttributeSyntax>,
    pub ident: String,
    /// The generic parameters, as written between `<` and `>`.
    pub generics: String,
    pub fields: FieldsSyntax,
}

/// An enum item.
#[derive(Debug)]
pub struct EnumSyntax {
    pub attrs: Vec<AttributeSyntax>,
    pub ident: String,
    /// The generic parameters, as written between `<` and `>`.
    pub generics: String,
    pub variants: Vec<VariantSyntax>,
    pub site: usize,
}

/// The item a derive is applied to.
#[derive(Debug)]
pub enum ItemSyntax {
    Struct(StructSyntax),
    Enum(EnumSyntax),
    /// Anything else, such as a union.
    Other { site: usize },
}

} // verus!
