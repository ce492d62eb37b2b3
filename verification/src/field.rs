//! The fields of a struct or enum variant, and the code that reads and writes
//! each of them.
use vstd::prelude::*;
use vstd::string::*;
use crate::config::{FieldConfig, field_config};
use crate::paths::{last_angle_args_text, path_ends_with, path_has_suffix, type_generics_to_tokens};
use crate::syntax::{FieldSyntax, FieldsSyntax, GenericArgumentSyntax, PathArgumentsSyntax, PathSegmentSyntax, PathSyntax, TypeSyntax};
use crate::text::{decimal_text, lemma_concat_empty, lemma_split_nonempty, push_decimal};
use crate::utils::{is_primitive, type_is_primitive};

verus! {

broadcast use lemma_concat_empty;

/// How a field is named.
#[derive(Debug)]
pub enum FieldDef {
    Named(String),
    /// A field of a tuple struct or tuple variant, by position.
    Unnamed(usize),
}

/// A field with its options.
#[derive(Debug)]
pub struct Field {
    pub config: FieldConfig,
    pub ty: TypeSyntax,
    pub field_def: FieldDef,
}

/// The fields of a struct or enum variant.
#[derive(Debug)]
pub enum Fields {
    Named(Vec<Field>),
    Unnamed(Vec<Field>),
}

impl Fields {
    pub open spec fn fields(self) -> Seq<Field> {
        match self {
            Fields::Named(fields) => fields@,
            Fields::Unnamed(fields) => fields@,
        }
    }

    pub fn get_fields(&self) -> (r: &Vec<Field>)
        ensures
            r@ == self.fields(),
    {
        match self {
            Fields::Named(fields) => fields,
            Fields::Unnamed(fields) => fields,
        }
    }
}

/// The type given as the first generic argument of the last segment of
/// `path`, if that argument is a type.
pub open spec fn first_type_arg(path: PathSyntax) -> Option<TypeSyntax> {
    if path.segments@.len() == 0 {
        None
    } else {
        match path.segments@.last().arguments {
            PathArgumentsSyntax::AngleBracketed { args, .. } => if args@.len() == 0 {
                None
            } else {
                match args@[0] {
                    GenericArgumentSyntax::Type(t) => Some(t),
                    _ => None,
                }
            },
            _ => None,
        }
    }
}

/// Whether the last segment of `path` has generic arguments in angle brackets.
pub open spec fn has_angle_args(path: PathSyntax) -> bool {
    path.segments@.len() > 0 && path.segments@.last().arguments is AngleBracketed
}

/// Whether the last segment of `path` has exactly two generic arguments in
/// angle brackets, as a vector with a capacity has.
pub open spec fn has_two_angle_args(path: PathSyntax) -> bool {
    &&& has_angle_args(path)
    &&& path.segments@.last().arguments->AngleBracketed_args@.len() == 2
}

/// The text of the generic arguments of a segment, as they follow its name.
pub open spec fn segment_args_text(args: PathArgumentsSyntax) -> Seq<char> {
    match args {
        PathArgumentsSyntax::NoArguments => Seq::empty(),
        PathArgumentsSyntax::AngleBracketed { tokens, .. } => " :: "@ + tokens@,
        PathArgumentsSyntax::Parenthesized { tokens } => " :: "@ + tokens@,
    }
}

/// A path as an expression: its segments joined by `::`, with `::` before
/// the generic arguments of each segment.
pub open spec fn path_expr_text(segments: Seq<PathSegmentSyntax>) -> Seq<char>
    decreases segments.len(),
{
    if segments.len() == 0 {
        Seq::empty()
    } else {
        let sep = if segments.len() > 1 { " :: "@ } else { Seq::empty() };
        path_expr_text(segments.drop_last()) + sep + segments.last().ident@
            + segment_args_text(segments.last().arguments)
    }
}

/// `bytes.read_with::<ty>(offset, ctx)?` for each element of a tuple type.
pub open spec fn tuple_reads_text(elems: Seq<TypeSyntax>, ctx: Seq<char>) -> Seq<char>
    decreases elems.len(),
{
    if elems.len() == 0 {
        Seq::empty()
    } else {
        tuple_reads_text(elems.drop_last(), ctx) + "bytes.read_with::< "@ + elems.last().text()
            + " >(offset, "@ + ctx + " )?, "@
    }
}

/// A write of `value`, passed by value when `by_value` and by reference otherwise.
pub open spec fn write_value_text(value: Seq<char>, by_value: bool, ctx: Seq<char>) -> Seq<char> {
    if by_value {
        "bytes.write_with(offset, "@ + value + " , "@ + ctx + " )?; "@
    } else {
        "bytes.write_with(offset, & "@ + value + " , "@ + ctx + " )?; "@
    }
}

/// The writes of the elements `0..elems.len()` of the tuple `slf`.
pub open spec fn tuple_writes_text(elems: Seq<TypeSyntax>, slf: Seq<char>, ctx: Seq<char>) -> Seq<char>
    decreases elems.len(),
{
    if elems.len() == 0 {
        Seq::empty()
    } else {
        let i = (elems.len() - 1) as nat;
        tuple_writes_text(elems.drop_last(), slf, ctx) + write_value_text(
            slf + " . "@ + decimal_text(i),
            type_is_primitive(elems.last()),
            ctx,
        )
    }
}

/// Whether code that reads a value of type `ty` can be generated.
pub open spec fn type_read_supported(ty: TypeSyntax) -> bool {
    match ty {
        TypeSyntax::Array { .. } => true,
        TypeSyntax::Tuple { .. } => true,
        TypeSyntax::Path { path, .. } => path_has_suffix(path, "Option"@) || !path_has_suffix(
            path,
            "Vec"@,
        ) || has_angle_args(path),
        TypeSyntax::Other { .. } => false,
    }
}

/// Whether code that writes a value of type `ty` can be generated.
pub open spec fn type_write_supported(ty: TypeSyntax) -> bool {
    match ty {
        TypeSyntax::Array { .. } => true,
        TypeSyntax::Tuple { .. } => true,
        TypeSyntax::Path { path, .. } => (!path_has_suffix(path, "Option"@) && !path_has_suffix(
            path,
            "Vec"@,
        )) || first_type_arg(path) is Some,
        TypeSyntax::Other { .. } => false,
    }
}

/// Whether code that reads (when `for_read`) or writes a value of type `ty`
/// can be generated.
pub fn type_supported(ty: &TypeSyntax, for_read: bool) -> (b: bool)
    ensures
        b == if for_read { type_read_supported(*ty) } else { type_write_supported(*ty) },
{
    match ty {
        TypeSyntax::Array { .. } => true,
        TypeSyntax::Tuple { .. } => true,
        TypeSyntax::Path { path, .. } => {
            let is_option = path_ends_with(path, "Option");
            let is_vec = path_ends_with(path, "Vec");
            if for_read {
                let n = path.segments.len();
                is_option || !is_vec || (n > 0 && match &path.segments[n - 1].arguments {
                    PathArgumentsSyntax::AngleBracketed { .. } => true,
                    _ => false,
                })
            } else {
                (!is_option && !is_vec) || get_first_type_arg(path).is_some()
            }
        },
        TypeSyntax::Other { .. } => false,
    }
}

impl Field {
    /// The name the generated code binds the field's value to.
    pub open spec fn ident_text(self) -> Seq<char> {
        match self.field_def {
            FieldDef::Named(ident) => ident@,
            FieldDef::Unnamed(idx) => "field_"@ + decimal_text(idx as nat),
        }
    }

    /// The field as a place in `self`.
    pub open spec fn self_call_text(self) -> Seq<char> {
        match self.field_def {
            FieldDef::Named(ident) => "self . "@ + ident@,
            FieldDef::Unnamed(idx) => "self . "@ + decimal_text(idx as nat),
        }
    }

    /// The context the field is read and written with.
    pub open spec fn ctx_text(self) -> Seq<char> {
        self.config.ctx_text(self.ty)
    }

    /// Whether code that reads the field can be generated.
    pub open spec fn read_supported(self) -> bool {
        self.config.ignore || type_read_supported(self.ty)
    }

    /// Whether code that writes the field can be generated.
    pub open spec fn write_supported(self) -> bool {
        self.config.ignore || type_write_supported(self.ty)
    }

    /// The read of an `Option` field of type `path`.
    pub open spec fn read_option_text(self, path: PathSyntax) -> Seq<char> {
        let id = self.ident_text();
        let read = "Some(bytes.read_with::< "@ + last_angle_args_text(path) + " >(offset, "@
            + self.ctx_text() + " )?)"@;
        match self.config.parse_if {
            Some(cond) => "let "@ + id + " = if "@ + cond@ + " { "@ + read + " } else { None }; "@,
            None => "let is_some = bytes.read_with::<bool>(offset, ())?; let "@ + id
                + " = if is_some { "@ + read + " } else { None }; "@,
        }
    }

    /// The read of a vector field of type `path`.
    pub open spec fn read_vec_text(self, path: PathSyntax) -> Seq<char> {
        let id = self.ident_text();
        let ctx = self.ctx_text();
        let vec_type = path_expr_text(path.segments@);
        let bounded = has_two_angle_args(path);
        let ctor = match self.config.len {
            Some(len) => "let size = bytes.read_with::< "@ + len@ + " >(offset, "@ + ctx + " )?; "@ + (
            if bounded {
                "let mut "@ + id + " = "@ + vec_type + " ::new(); "@
            } else {
                "let mut "@ + id + " = "@ + vec_type + " ::with_capacity(size as usize); "@
            }),
            None => "let mut "@ + id + " = "@ + vec_type + " ::new(); "@,
        };
        let push = if bounded {
            id + " .push(bytes.read_with(offset, "@ + ctx
                + " )?).map_err(|_| byte::Error::BadInput { err: \"cannot fit items into Vec, Vec too small\" })?; "@
        } else {
            id + " .push(bytes.read_with(offset, "@ + ctx + " )?); "@
        };
        match self.config.len {
            Some(_) => ctor + "for _ in 0..size { "@ + push + "} "@,
            None => ctor + "while bytes[*offset..].len() > 0 { "@ + push + "} "@,
        }
    }

    /// The statements that read the field from `bytes` at `offset` and bind it.
    pub open spec fn read_text(self) -> Seq<char> {
        let id = self.ident_text();
        let ctx = self.ctx_text();
        if self.config.ignore {
            match self.config.default {
                None => "let "@ + id + " = Default::default(); "@,
                Some(expr) => "let "@ + id + " = "@ + expr@ + " ; "@,
            }
        } else {
            match self.ty {
                TypeSyntax::Array { elem, len, .. } => "let mut "@ + id + " = [ "@ + elem.text()
                    + " ::default(); "@ + len@ + " ]; for i in 0.. "@ + len@ + " { "@ + id
                    + " [i] = bytes.read_with::< "@ + elem.text() + " >(offset, "@ + ctx
                    + " )?; } "@,
                TypeSyntax::Path { path, tokens } => if path_has_suffix(path, "Option"@) {
                    self.read_option_text(path)
                } else if path_has_suffix(path, "Vec"@) {
                    self.read_vec_text(path)
                } else {
                    "let "@ + id + " = bytes.read_with::< "@ + tokens@ + " >(offset, "@ + ctx
                        + " )?; "@
                },
                TypeSyntax::Tuple { elems, .. } => "let "@ + id + " = ( "@ + tuple_reads_text(
                    elems@,
                    ctx,
                ) + " ); "@,
                TypeSyntax::Other { .. } => Seq::empty(),
            }
        }
    }

    /// The write of an `Option` field `slf` whose value type is `inner`.
    pub open spec fn write_option_text(self, inner: TypeSyntax, slf: Seq<char>) -> Seq<char> {
        let ctx = self.ctx_text();
        let write = if type_is_primitive(inner) {
            "bytes.write_with(offset, *value, "@ + ctx + " )?; "@
        } else {
            "bytes.write_with(offset, value, "@ + ctx + " )?; "@
        };
        match self.config.parse_if {
            Some(_) => "if let Some(ref value) = "@ + slf + " { "@ + write + "} "@,
            None => "if let Some(ref value) = "@ + slf + " { bytes.write_with(offset, true, ())?; "@
                + write + "} else { bytes.write_with(offset, false, ())?; } "@,
        }
    }

    /// The write of a vector field `slf` whose items have type `item`.
    pub open spec fn write_vec_text(self, item: TypeSyntax, slf: Seq<char>) -> Seq<char> {
        let ctx = self.ctx_text();
        let write = if type_is_primitive(item) {
            "bytes.write_with(offset, *item, "@ + ctx + " )?; "@
        } else {
            "bytes.write_with(offset, item, "@ + ctx + " )?; "@
        };
        let prefix = match self.config.len {
            Some(len) => "bytes.write_with::< "@ + len@ + " >(offset, "@ + slf + " .len() as "@
                + len@ + " , "@ + ctx + " )?; "@,
            None => Seq::empty(),
        };
        prefix + "for item in "@ + slf + " .iter() { "@ + write + "} "@
    }

    /// The statements that write the field, found at `slf`, to `bytes` at `offset`.
    pub open spec fn write_text_at(self, slf: Seq<char>) -> Seq<char> {
        let ctx = self.ctx_text();
        if self.config.ignore {
            Seq::empty()
        } else {
            match self.ty {
                TypeSyntax::Array { elem, len, .. } => "for i in 0.. "@ + len@ + " { "@
                    + write_value_text(slf + " [i]"@, type_is_primitive(*elem), ctx) + "} "@,
                TypeSyntax::Path { path, .. } => if path_has_suffix(path, "Option"@) {
                    self.write_option_text(first_type_arg(path)->Some_0, slf)
                } else if path_has_suffix(path, "Vec"@) {
                    self.write_vec_text(first_type_arg(path)->Some_0, slf)
                } else {
                    write_value_text(slf, type_is_primitive(self.ty), ctx)
                },
                TypeSyntax::Tuple { elems, .. } => tuple_writes_text(elems@, slf, ctx),
                TypeSyntax::Other { .. } => Seq::empty(),
            }
        }
    }

    /// The statements that write the field: as a place in `self` when
    /// `self_ref`, and as the name it is bound to otherwise.
    pub open spec fn write_text(self, self_ref: bool) -> Seq<char> {
        self.write_text_at(if self_ref { self.self_call_text() } else { self.ident_text() })
    }
}


/// The text of a path as an expression, as `path_expr_text` describes it.
pub fn path_expr(path: &PathSyntax) -> (s: String)
    ensures
        s@ == path_expr_text(path.segments@),
{
    let segments = &path.segments;
    let mut vec_type = String::new();
    let mut i: usize = 0;
    while i < segments.len()
        invariant
            i <= segments@.len(),
            vec_type@ == path_expr_text(segments@.take(i as int)),
        decreases segments@.len() - i,
    {
        let segment = &segments[i];
        proof {
            assert(segments@.take(i + 1).drop_last() =~= segments@.take(i as int));
            assert(segments@.take(i + 1).last() == segments@[i as int]);
        }
        if i > 0 {
            vec_type.append(" :: ");
        }
        vec_type.append(segment.ident.as_str());
        match &segment.arguments {
            PathArgumentsSyntax::NoArguments => {},
            PathArgumentsSyntax::AngleBracketed { tokens, .. } => {
                vec_type.append(" :: ");
                vec_type.append(tokens.as_str());
            },
            PathArgumentsSyntax::Parenthesized { tokens } => {
                vec_type.append(" :: ");
                vec_type.append(tokens.as_str());
            },
        }
        i = i + 1;
    }
    proof {
        assert(segments@.take(segments@.len() as int) =~= segments@);
    }
    vec_type
}

/// Appends a write of `value`, by value when `by_value` and by reference otherwise.
fn push_write_value(out: &mut String, value: &str, by_value: bool, ctx: &str)
    ensures
        final(out)@ == old(out)@ + write_value_text(value@, by_value, ctx@),
{
    if by_value {
        out.append("bytes.write_with(offset, ");
    } else {
        out.append("bytes.write_with(offset, & ");
    }
    out.append(value);
    out.append(" , ");
    out.append(ctx);
    out.append(" )?; ");
}

/// The type given as the first generic argument of the last segment of `path`.
pub fn get_first_type_arg(path: &PathSyntax) -> (r: Option<&TypeSyntax>)
    ensures
        match r {
            Some(t) => first_type_arg(*path) == Some(*t),
            None => first_type_arg(*path) is None,
        },
{
    let n = path.segments.len();
    if n == 0 {
        return None;
    }
    match &path.segments[n - 1].arguments {
        PathArgumentsSyntax::AngleBracketed { args, .. } => {
            if args.len() == 0 {
                None
            } else {
                match &args[0] {
                    GenericArgumentSyntax::Type(t) => Some(t),
                    _ => None,
                }
            }
        },
        _ => None,
    }
}

impl Field {
    /// The name the generated code binds the field's value to.
    pub fn get_ident(&self) -> (s: String)
        ensures
            s@ == self.ident_text(),
    {
        match &self.field_def {
            FieldDef::Named(ident) => ident.clone(),
            FieldDef::Unnamed(idx) => {
                let mut s = "field_".to_owned();
                push_decimal(&mut s, *idx);
                s
            },
        }
    }

    /// The field as a place in `self`.
    pub fn get_self_call(&self) -> (s: String)
        ensures
            s@ == self.self_call_text(),
    {
        let mut s = "self . ".to_owned();
        match &self.field_def {
            FieldDef::Named(ident) => s.append(ident.as_str()),
            FieldDef::Unnamed(idx) => push_decimal(&mut s, *idx),
        }
        s
    }

    /// Appends the statements that read the field and bind it.
    pub fn try_read_to_tokens(&self, tokens: &mut String)
        requires
            self.read_supported(),
        ensures
            final(tokens)@ == old(tokens)@ + self.read_text(),
    {
        let ident = self.get_ident();
        if self.config.ignore {
            tokens.append("let ");
            tokens.append(ident.as_str());
            match &self.config.default {
                None => tokens.append(" = Default::default(); "),
                Some(expr) => {
                    tokens.append(" = ");
                    tokens.append(expr.as_str());
                    tokens.append(" ; ");
                },
            }
            return;
        }
        let ctx = self.config.get_ctx(&self.ty);
        let qt = match &self.ty {
            TypeSyntax::Array { elem, len, .. } => {
                let inner_ty = elem.tokens();
                let mut q = "let mut ".to_owned();
                q.append(ident.as_str());
                q.append(" = [ ");
                q.append(inner_ty.as_str());
                q.append(" ::default(); ");
                q.append(len.as_str());
                q.append(" ]; for i in 0.. ");
                q.append(len.as_str());
                q.append(" { ");
                q.append(ident.as_str());
                q.append(" [i] = bytes.read_with::< ");
                q.append(inner_ty.as_str());
                q.append(" >(offset, ");
                q.append(ctx.as_str());
                q.append(" )?; } ");
                q
            },
            TypeSyntax::Path { path, tokens: ty } => {
                if path_ends_with(path, "Option") {
                    proof {
                        lemma_split_nonempty("Option"@);
                    }
                    self.read_option(path)
                } else if path_ends_with(path, "Vec") {
                    self.read_vec(path)
                } else {
                    let mut q = "let ".to_owned();
                    q.append(ident.as_str());
                    q.append(" = bytes.read_with::< ");
                    q.append(ty.as_str());
                    q.append(" >(offset, ");
                    q.append(ctx.as_str());
                    q.append(" )?; ");
                    q
                }
            },
            TypeSyntax::Tuple { elems, .. } => {
                let mut stream = String::new();
                let mut i: usize = 0;
                while i < elems.len()
                    invariant
                        i <= elems@.len(),
                        stream@ == tuple_reads_text(elems@.take(i as int), ctx@),
                    decreases elems@.len() - i,
                {
                    proof {
                        assert(elems@.take(i + 1).drop_last() =~= elems@.take(i as int));
                        assert(elems@.take(i + 1).last() == elems@[i as int]);
                    }
                    stream.append("bytes.read_with::< ");
                    stream.append(elems[i].tokens().as_str());
                    stream.append(" >(offset, ");
                    stream.append(ctx.as_str());
                    stream.append(" )?, ");
                    i = i + 1;
                }
                proof {
                    assert(elems@.take(elems@.len() as int) =~= elems@);
                }
                let mut q = "let ".to_owned();
                q.append(ident.as_str());
                q.append(" = ( ");
                q.append(stream.as_str());
                q.append(" ); ");
                q
            },
            TypeSyntax::Other { .. } => {
                unreached()
            },
        };
        tokens.append(qt.as_str());
    }

    /// The read of an `Option` field of type `path`.
    pub fn read_option(&self, path: &PathSyntax) -> (s: String)
        requires
            path.segments@.len() > 0,
        ensures
            s@ == self.read_option_text(*path),
    {
        let mut inner_ty = String::new();
        type_generics_to_tokens(path, &mut inner_ty);
        let ident = self.get_ident();
        let ctx = self.config.get_ctx(&self.ty);
        let mut read = "Some(bytes.read_with::< ".to_owned();
        read.append(inner_ty.as_str());
        read.append(" >(offset, ");
        read.append(ctx.as_str());
        read.append(" )?)");
        let mut s = String::new();
        match &self.config.parse_if {
            Some(expr) => {
                s.append("let ");
                s.append(ident.as_str());
                s.append(" = if ");
                s.append(expr.as_str());
                s.append(" { ");
            },
            None => {
                s.append("let is_some = bytes.read_with::<bool>(offset, ())?; let ");
                s.append(ident.as_str());
                s.append(" = if is_some { ");
            },
        }
        s.append(read.as_str());
        s.append(" } else { None }; ");
        s
    }

    /// The read of a vector field of type `path`.
    pub fn read_vec(&self, path: &PathSyntax) -> (s: String)
        requires
            has_angle_args(*path),
        ensures
            s@ == self.read_vec_text(*path),
    {
        let ident = self.get_ident();
        let ctx = self.config.get_ctx(&self.ty);
        let len = self.config.get_len();
        let n = path.segments.len();
        let bounded = match &path.segments[n - 1].arguments {
            PathArgumentsSyntax::AngleBracketed { args, .. } => args.len() == 2,
            _ => unreached(),
        };
        let vec_type = path_expr(path);
        let mut ctor = String::new();
        match &len {
            Some(expr) => {
                ctor.append("let size = bytes.read_with::< ");
                ctor.append(expr.as_str());
                ctor.append(" >(offset, ");
                ctor.append(ctx.as_str());
                ctor.append(" )?; ");
                ctor.append("let mut ");
                ctor.append(ident.as_str());
                ctor.append(" = ");
                ctor.append(vec_type.as_str());
                if bounded {
                    ctor.append(" ::new(); ");
                } else {
                    ctor.append(" ::with_capacity(size as usize); ");
                }
            },
            None => {
                ctor.append("let mut ");
                ctor.append(ident.as_str());
                ctor.append(" = ");
                ctor.append(vec_type.as_str());
                ctor.append(" ::new(); ");
            },
        }
        let mut inner = ident.clone();
        inner.append(" .push(bytes.read_with(offset, ");
        inner.append(ctx.as_str());
        if bounded {
            inner.append(
                " )?).map_err(|_| byte::Error::BadInput { err: \"cannot fit items into Vec, Vec too small\" })?; ",
            );
        } else {
            inner.append(" )?); ");
        }
        let mut s = ctor;
        if len.is_some() {
            s.append("for _ in 0..size { ");
        } else {
            s.append("while bytes[*offset..].len() > 0 { ");
        }
        s.append(inner.as_str());
        s.append("} ");
        s
    }
}

impl Field {
    /// The write of the field `field`, by value when its type is primitive.
    pub fn write_field(&self, field: &String, ctx: &String) -> (s: String)
        ensures
            s@ == write_value_text(field@, type_is_primitive(self.ty), ctx@),
    {
        let mut s = String::new();
        push_write_value(&mut s, field.as_str(), is_primitive(&self.ty), ctx.as_str());
        s
    }

    /// Appends the statements that write the field: as a place in `self`
    /// when `self_ref`, and as the name it is bound to otherwise.
    pub fn try_write_to_tokens(&self, tokens: &mut String, self_ref: bool)
        requires
            self.write_supported(),
        ensures
            final(tokens)@ == old(tokens)@ + self.write_text(self_ref),
    {
        if self.config.ignore {
            return;
        }
        let slf = if self_ref {
            self.get_self_call()
        } else {
            self.get_ident()
        };
        let ctx = self.config.get_ctx(&self.ty);
        let qt = match &self.ty {
            TypeSyntax::Array { elem, len, .. } => {
                let mut item = slf.clone();
                item.append(" [i]");
                let mut q = "for i in 0.. ".to_owned();
                q.append(len.as_str());
                q.append(" { ");
                push_write_value(&mut q, item.as_str(), is_primitive(elem), ctx.as_str());
                q.append("} ");
                q
            },
            TypeSyntax::Path { path, .. } => {
                if path_ends_with(path, "Option") {
                    self.write_option(path, &slf)
                } else if path_ends_with(path, "Vec") {
                    self.write_vec(path, &slf)
                } else {
                    self.write_field(&slf, &ctx)
                }
            },
            TypeSyntax::Tuple { elems, .. } => {
                let mut stream = String::new();
                let mut i: usize = 0;
                while i < elems.len()
                    invariant
                        i <= elems@.len(),
                        stream@ == tuple_writes_text(elems@.take(i as int), slf@, ctx@),
                    decreases elems@.len() - i,
                {
                    proof {
                        assert(elems@.take(i + 1).drop_last() =~= elems@.take(i as int));
                        assert(elems@.take(i + 1).last() == elems@[i as int]);
                    }
                    let mut item = slf.clone();
                    item.append(" . ");
                    push_decimal(&mut item, i);
                    push_write_value(&mut stream, item.as_str(), is_primitive(&elems[i]), ctx.as_str());
                    i = i + 1;
                }
                proof {
                    assert(elems@.take(elems@.len() as int) =~= elems@);
                }
                stream
            },
            TypeSyntax::Other { .. } => {
                unreached()
            },
        };
        tokens.append(qt.as_str());
    }

    /// The write of an `Option` field `slf` of type `ty`.
    pub fn write_option(&self, ty: &PathSyntax, slf: &String) -> (s: String)
        requires
            first_type_arg(*ty) is Some,
        ensures
            s@ == self.write_option_text(first_type_arg(*ty)->Some_0, slf@),
    {
        let inner = match get_first_type_arg(ty) {
            Some(t) => t,
            None => unreached(),
        };
        let ctx = self.config.get_ctx(&self.ty);
        let mut write_expr = String::new();
        if is_primitive(inner) {
            write_expr.append("bytes.write_with(offset, *value, ");
        } else {
            write_expr.append("bytes.write_with(offset, value, ");
        }
        write_expr.append(ctx.as_str());
        write_expr.append(" )?; ");
        let mut s = "if let Some(ref value) = ".to_owned();
        s.append(slf.as_str());
        match &self.config.parse_if {
            Some(_) => {
                s.append(" { ");
                s.append(write_expr.as_str());
                s.append("} ");
            },
            None => {
                s.append(" { bytes.write_with(offset, true, ())?; ");
                s.append(write_expr.as_str());
                s.append("} else { bytes.write_with(offset, false, ())?; } ");
            },
        }
        s
    }

    /// The write of a vector field `slf` of type `ty`.
    pub fn write_vec(&self, ty: &PathSyntax, slf: &String) -> (s: String)
        requires
            first_type_arg(*ty) is Some,
        ensures
            s@ == self.write_vec_text(first_type_arg(*ty)->Some_0, slf@),
    {
        let ctx = self.config.get_ctx(&self.ty);
        let len = self.config.get_len();
        let item = match get_first_type_arg(ty) {
            Some(t) => t,
            None => unreached(),
        };
        let mut write_block = String::new();
        if is_primitive(item) {
            write_block.append("bytes.write_with(offset, *item, ");
        } else {
            write_block.append("bytes.write_with(offset, item, ");
        }
        write_block.append(ctx.as_str());
        write_block.append(" )?; ");
        let mut block = String::new();
        if let Some(expr) = &len {
            block.append("bytes.write_with::< ");
            block.append(expr.as_str());
            block.append(" >(offset, ");
            block.append(slf.as_str());
            block.append(" .len() as ");
            block.append(expr.as_str());
            block.append(" , ");
            block.append(ctx.as_str());
            block.append(" )?; ");
        }
        block.append("for item in ");
        block.append(slf.as_str());
        block.append(" .iter() { ");
        block.append(write_block.as_str());
        block.append("} ");
        block
    }
}

/// The field that `syntax` declares at position `idx` of its list, by name
/// when `named` and by position otherwise.
pub open spec fn field_from_syntax(syntax: FieldSyntax, idx: int, named: bool) -> Field {
    Field {
        config: field_config(syntax.attrs@)->Ok_0,
        ty: syntax.ty,
        field_def: if named {
            FieldDef::Named(syntax.ident)
        } else {
            FieldDef::Unnamed(idx as usize)
        },
    }
}

/// Whether the `#[byte(..)]` attributes of all of `fields` are understood.
pub open spec fn field_attrs_valid(fields: Seq<FieldSyntax>) -> bool {
    forall|i: int| 0 <= i < fields.len() ==> (#[trigger] field_config(fields[i].attrs@)) is Ok
}

/// Whether the `#[byte(..)]` attributes of all the fields of `fields` are understood.
pub open spec fn fields_attrs_valid(fields: FieldsSyntax) -> bool {
    match fields {
        FieldsSyntax::Named(v) => field_attrs_valid(v@),
        FieldsSyntax::Unnamed(v) => field_attrs_valid(v@),
        FieldsSyntax::Unit => true,
    }
}

/// Whether `fields` holds, in order, the fields that `syntax` declares.
pub open spec fn field_list_matches(fields: Seq<Field>, syntax: Seq<FieldSyntax>, named: bool) -> bool {
    &&& fields.len() == syntax.len()
    &&& forall|i: int|
        0 <= i < syntax.len() ==> #[trigger] fields[i] == field_from_syntax(syntax[i], i, named)
}

/// Whether `fields` holds what `syntax` declares: nothing for a unit, and
/// otherwise the declared fields in order.
pub open spec fn fields_match(fields: Option<Fields>, syntax: FieldsSyntax) -> bool {
    match syntax {
        FieldsSyntax::Named(v) => match fields {
            Some(Fields::Named(w)) => field_list_matches(w@, v@, true),
            _ => false,
        },
        FieldsSyntax::Unnamed(v) => match fields {
            Some(Fields::Unnamed(w)) => field_list_matches(w@, v@, false),
            _ => false,
        },
        FieldsSyntax::Unit => fields is None,
    }
}

impl Field {
    /// The named field that `named` declares.
    pub fn from_named(named: FieldSyntax) -> (f: Field)
        requires
            field_config(named.attrs@) is Ok,
        ensures
            f == field_from_syntax(named, 0, true),
    {
        let config = match FieldConfig::from_attrs(&named.attrs) {
            Ok(config) => config,
            Err(_) => unreached(),
        };
        Field { config, ty: named.ty, field_def: FieldDef::Named(named.ident) }
    }

    /// The field that `unnamed` declares at position `idx`.
    pub fn from_unnamed(unnamed: FieldSyntax, idx: usize) -> (f: Field)
        requires
            field_config(unnamed.attrs@) is Ok,
        ensures
            f == field_from_syntax(unnamed, idx as int, false),
    {
        let config = match FieldConfig::from_attrs(&unnamed.attrs) {
            Ok(config) => config,
            Err(_) => unreached(),
        };
        Field { config, ty: unnamed.ty, field_def: FieldDef::Unnamed(idx) }
    }
}

/// The fields that the list `syntax` declares, by name when `named`.
fn field_list(syntax: Vec<FieldSyntax>, named: bool) -> (fields: Vec<Field>)
    requires
        field_attrs_valid(syntax@),
    ensures
        field_list_matches(fields@, syntax@, named),
{
    let ghost orig = syntax@;
    let total = syntax.len();
    let mut rest = syntax;
    let mut fields: Vec<Field> = Vec::new();
    let mut idx: usize = 0;
    proof {
        assert(orig.skip(0) =~= orig);
    }
    while rest.len() > 0
        invariant
            field_attrs_valid(orig),
            orig.len() == total,
            idx <= orig.len(),
            rest@ == orig.skip(idx as int),
            fields@.len() == idx,
            forall|j: int|
                0 <= j < idx ==> #[trigger] fields@[j] == field_from_syntax(orig[j], j, named),
        decreases rest@.len(),
    {
        let f = rest.remove(0);
        proof {
            assert(f == orig[idx as int]);
            assert(orig.skip(idx as int).remove(0) =~= orig.skip(idx + 1));
            assert(field_config(orig[idx as int].attrs@) is Ok);
        }
        let field = if named {
            Field::from_named(f)
        } else {
            Field::from_unnamed(f, idx)
        };
        fields.push(field);
        idx = idx + 1;
    }
    proof {
        assert(orig.skip(idx as int).len() == 0);
    }
    fields
}

impl Fields {
    /// The fields that `syntax` declares; `None` for a unit.
    pub fn from_syntax(syntax: FieldsSyntax) -> (r: Option<Fields>)
        requires
            fields_attrs_valid(syntax),
        ensures
            fields_match(r, syntax),
    {
        match syntax {
            FieldsSyntax::Named(named) => Some(Fields::Named(field_list(named, true))),
            FieldsSyntax::Unnamed(unnamed) => Some(Fields::Unnamed(field_list(unnamed, false))),
            FieldsSyntax::Unit => None,
        }
    }
}

} // verus!
