//! The items the derives apply to: structs and enums, as parsed from their
//! syntax, and the impls generated for them.
use vstd::prelude::*;
use vstd::string::*;
use crate::config::{copy_error, find_attr, first_attr_named};
use crate::field::{Field, Fields, fields_attrs_valid, fields_match};
use crate::paths::{get_path_name, path_name};
use crate::syntax::{
    AttributeSyntax, DeriveError, EnumSyntax, ErrorView, ItemSyntax, MetaSyntax, NameValueSyntax,
    StructSyntax, VariantSyntax, fail, outcome,
};
use crate::text::{lemma_concat_empty, text_is};
use crate::utils::{bool_expr, bool_value};

verus! {

broadcast use lemma_concat_empty;

/// A struct to derive for.
#[derive(Debug)]
pub struct StructDef {
    /// The context type given by `#[byte(ctx = ..)]`.
    pub ctx: Option<String>,
    pub ident: String,
    /// The generic parameters, as written between `<` and `>`.
    pub generics: String,
    /// The fields; `None` for a unit struct.
    pub fields: Option<Fields>,
}

/// A variant of an enum to derive for.
#[derive(Debug)]
pub struct EnumVariant {
    pub ident: String,
    /// The discriminant expression.
    pub discriminant: String,
    /// The fields; `None` for a unit variant.
    pub fields: Option<Fields>,
}

/// An enum to derive for.
#[derive(Debug)]
pub struct EnumDef {
    /// The context type given by `#[byte(ctx = ..)]`.
    pub ctx: Option<String>,
    pub ident: String,
    /// The integer type of `#[repr(..)]`: the type of the tag.
    pub repr_ty: String,
    /// The generic parameters, as written between `<` and `>`.
    pub generics: String,
    pub variants: Vec<EnumVariant>,
    /// `#[byte(no_tag = true)]`: writing leaves the tag out.
    pub no_tag: bool,
}

/// An item to derive for.
#[derive(Debug)]
pub enum ObjectDef {
    Struct(StructDef),
    Enum(EnumDef),
}

// ---------------------------------------------------------------------------
// Struct options

/// The context after one argument of a struct attribute: only `ctx` is understood.
pub open spec fn struct_arg(ctx: Option<String>, arg: NameValueSyntax) -> Result<Option<String>, ErrorView> {
    if path_name(arg.path) == "ctx"@ {
        Ok(Some(arg.value))
    } else {
        fail("invalid attribute"@, arg.site)
    }
}

/// The context after the arguments `args` of a struct attribute, in order.
pub open spec fn struct_args(ctx: Option<String>, args: Seq<NameValueSyntax>) -> Result<Option<String>, ErrorView>
    decreases args.len(),
{
    if args.len() == 0 {
        Ok(ctx)
    } else {
        match struct_arg(ctx, args[0]) {
            Ok(next) => struct_args(next, args.skip(1)),
            Err(e) => Err(e),
        }
    }
}

/// The context after one attribute of a struct: every attribute with
/// arguments in brackets is read as `key = value` arguments, whatever its name.
pub open spec fn struct_attr(ctx: Option<String>, attr: AttributeSyntax) -> Result<Option<String>, ErrorView> {
    match attr.meta {
        MetaSyntax::List { name_values, .. } => match name_values {
            Ok(args) => struct_args(ctx, args@),
            Err(e) => Err(e@),
        },
        _ => Ok(ctx),
    }
}

/// The context after the attributes `attrs` of a struct, in order.
pub open spec fn struct_attrs(ctx: Option<String>, attrs: Seq<AttributeSyntax>) -> Result<Option<String>, ErrorView>
    decreases attrs.len(),
{
    if attrs.len() == 0 {
        Ok(ctx)
    } else {
        match struct_attr(ctx, attrs[0]) {
            Ok(next) => struct_attrs(next, attrs.skip(1)),
            Err(e) => Err(e),
        }
    }
}

fn apply_struct_args(ctx: Option<String>, args: &Vec<NameValueSyntax>) -> (r: Result<Option<String>, DeriveError>)
    ensures
        outcome(r) == struct_args(ctx, args@),
{
    let mut ctx = ctx;
    let ghost start = ctx;
    let mut i: usize = 0;
    proof {
        assert(args@.skip(0) =~= args@);
    }
    while i < args.len()
        invariant
            i <= args@.len(),
            struct_args(ctx, args@.skip(i as int)) == struct_args(start, args@),
        decreases args@.len() - i,
    {
        let arg = &args[i];
        proof {
            assert(args@.skip(i as int)[0] == args@[i as int]);
            assert(args@.skip(i as int).skip(1) =~= args@.skip(i + 1));
        }
        let name = get_path_name(&arg.path);
        if text_is(&name, "ctx") {
            ctx = Some(arg.value.clone());
        } else {
            return Err(DeriveError { message: "invalid attribute".to_owned(), site: arg.site });
        }
        i = i + 1;
    }
    proof {
        assert(args@.skip(i as int) =~= Seq::<NameValueSyntax>::empty());
    }
    Ok(ctx)
}

/// The context that the attributes `attrs` of a struct give.
pub fn struct_options(attrs: &Vec<AttributeSyntax>) -> (r: Result<Option<String>, DeriveError>)
    ensures
        outcome(r) == struct_attrs(None, attrs@),
{
    let mut ctx: Option<String> = None;
    let mut i: usize = 0;
    proof {
        assert(attrs@.skip(0) =~= attrs@);
    }
    while i < attrs.len()
        invariant
            i <= attrs@.len(),
            struct_attrs(ctx, attrs@.skip(i as int)) == struct_attrs(None, attrs@),
        decreases attrs@.len() - i,
    {
        let attr = &attrs[i];
        proof {
            assert(attrs@.skip(i as int)[0] == attrs@[i as int]);
            assert(attrs@.skip(i as int).skip(1) =~= attrs@.skip(i + 1));
        }
        if let MetaSyntax::List { name_values, .. } = &attr.meta {
            match name_values {
                Ok(args) => match apply_struct_args(ctx, args) {
                    Ok(next) => {
                        ctx = next;
                    },
                    Err(e) => {
                        return Err(e);
                    },
                },
                Err(e) => {
                    return Err(copy_error(e));
                },
            }
        }
        i = i + 1;
    }
    proof {
        assert(attrs@.skip(i as int) =~= Seq::<AttributeSyntax>::empty());
    }
    Ok(ctx)
}

impl StructDef {
    /// The struct that `input` declares.
    pub fn parse(input: StructSyntax) -> (r: Result<Self, DeriveError>)
        requires
            fields_attrs_valid(input.fields),
        ensures
            match r {
                Ok(def) => {
                    &&& struct_attrs(None, input.attrs@) == Ok::<Option<String>, ErrorView>(def.ctx)
                    &&& def.ident == input.ident
                    &&& def.generics == input.generics
                    &&& fields_match(def.fields, input.fields)
                },
                Err(e) => struct_attrs(None, input.attrs@) == Err::<Option<String>, ErrorView>(e@),
            },
    {
        let fields = Fields::from_syntax(input.fields);
        let ctx = match struct_options(&input.attrs) {
            Ok(ctx) => ctx,
            Err(e) => {
                return Err(e);
            },
        };
        Ok(StructDef { ctx, ident: input.ident, generics: input.generics, fields })
    }
}

// ---------------------------------------------------------------------------
// Enum options

/// The type of the enum's tag: the argument of its first `repr` attribute.
pub open spec fn enum_repr(input: EnumSyntax) -> Result<String, ErrorView> {
    match first_attr_named(input.attrs@, "repr"@) {
        None => fail("repr attribute not found"@, input.site),
        Some(i) => match input.attrs@[i].meta {
            MetaSyntax::List { as_type, .. } => match as_type {
                Ok(t) => Ok(t),
                Err(e) => Err(e@),
            },
            _ => fail("repr attribute must be a list"@, input.attrs@[i].site),
        },
    }
}

/// The options after one argument of an enum's `byte` attribute.
pub open spec fn enum_arg(opts: (Option<String>, bool), arg: NameValueSyntax) -> Result<(Option<String>, bool), ErrorView> {
    let key = path_name(arg.path);
    if key == "ctx"@ {
        Ok((Some(arg.value), opts.1))
    } else if key == "no_tag"@ {
        match bool_value(arg) {
            Ok(b) => Ok((opts.0, b)),
            Err(e) => Err(e),
        }
    } else {
        fail("invalid attribute"@, arg.site)
    }
}

/// The options after the arguments `args` of an enum's `byte` attribute, in order.
pub open spec fn enum_args(opts: (Option<String>, bool), args: Seq<NameValueSyntax>) -> Result<(Option<String>, bool), ErrorView>
    decreases args.len(),
{
    if args.len() == 0 {
        Ok(opts)
    } else {
        match enum_arg(opts, args[0]) {
            Ok(next) => enum_args(next, args.skip(1)),
            Err(e) => Err(e),
        }
    }
}

/// The context and the `no_tag` flag of an enum: those of its first `byte`
/// attribute when that has arguments in brackets.
pub open spec fn enum_options(attrs: Seq<AttributeSyntax>) -> Result<(Option<String>, bool), ErrorView> {
    match first_attr_named(attrs, "byte"@) {
        None => Ok((None, false)),
        Some(i) => match attrs[i].meta {
            MetaSyntax::List { name_values, .. } => match name_values {
                Ok(args) => enum_args((None, false), args@),
                Err(e) => Err(e@),
            },
            _ => Ok((None, false)),
        },
    }
}

/// Whether every variant has a discriminant and only understood field attributes.
pub open spec fn variants_valid(variants: Seq<VariantSyntax>) -> bool {
    forall|i: int|
        0 <= i < variants.len() ==> {
            &&& (#[trigger] variants[i]).discriminant is Some
            &&& fields_attrs_valid(variants[i].fields)
        }
}

/// Whether `variant` is what `syntax` declares.
pub open spec fn variant_matches(variant: EnumVariant, syntax: VariantSyntax) -> bool {
    &&& variant.ident == syntax.ident
    &&& syntax.discriminant == Some(variant.discriminant)
    &&& fields_match(variant.fields, syntax.fields)
}

/// Whether reading `input` as an enum panics: it does when its tag type is
/// found and a variant has no discriminant or a field attribute is not understood.
pub open spec fn enum_parse_panics(input: EnumSyntax) -> bool {
    enum_repr(input) is Ok && !variants_valid(input.variants@)
}

impl EnumVariant {
    /// The variant that `syntax` declares.
    pub fn from_syntax(syntax: VariantSyntax) -> (v: EnumVariant)
        requires
            syntax.discriminant is Some,
            fields_attrs_valid(syntax.fields),
        ensures
            variant_matches(v, syntax),
    {
        let discriminant = match syntax.discriminant {
            Some(d) => d,
            None => unreached(),
        };
        EnumVariant { ident: syntax.ident, discriminant, fields: Fields::from_syntax(syntax.fields) }
    }
}

fn apply_enum_args(args: &Vec<NameValueSyntax>) -> (r: Result<(Option<String>, bool), DeriveError>)
    ensures
        outcome(r) == enum_args((None, false), args@),
{
    let mut ctx: Option<String> = None;
    let mut no_tag = false;
    let mut i: usize = 0;
    proof {
        assert(args@.skip(0) =~= args@);
    }
    while i < args.len()
        invariant
            i <= args@.len(),
            enum_args((ctx, no_tag), args@.skip(i as int)) == enum_args((None, false), args@),
        decreases args@.len() - i,
    {
        let arg = &args[i];
        proof {
            assert(args@.skip(i as int)[0] == args@[i as int]);
            assert(args@.skip(i as int).skip(1) =~= args@.skip(i + 1));
        }
        let name = get_path_name(&arg.path);
        if text_is(&name, "ctx") {
            ctx = Some(arg.value.clone());
        } else if text_is(&name, "no_tag") {
            match bool_expr(arg) {
                Ok(b) => no_tag = b,
                Err(e) => {
                    return Err(e);
                },
            }
        } else {
            return Err(DeriveError { message: "invalid attribute".to_owned(), site: arg.site });
        }
        i = i + 1;
    }
    proof {
        assert(args@.skip(i as int) =~= Seq::<NameValueSyntax>::empty());
    }
    Ok((ctx, no_tag))
}

/// The type of the tag of the enum `input`.
pub fn enum_repr_type(input: &EnumSyntax) -> (r: Result<String, DeriveError>)
    ensures
        outcome(r) == enum_repr(*input),
{
    let repr_attr = match find_attr(&input.attrs, "repr") {
        Some(idx) => &input.attrs[idx],
        None => {
            return Err(DeriveError { message: "repr attribute not found".to_owned(), site: input.site });
        },
    };
    match &repr_attr.meta {
        MetaSyntax::List { as_type, .. } => match as_type {
            Ok(t) => Ok(t.clone()),
            Err(e) => Err(copy_error(e)),
        },
        _ => Err(DeriveError { message: "repr attribute must be a list".to_owned(), site: repr_attr.site }),
    }
}

/// The context and the `no_tag` flag that the attributes `attrs` of an enum give.
pub fn enum_attrs_options(attrs: &Vec<AttributeSyntax>) -> (r: Result<(Option<String>, bool), DeriveError>)
    ensures
        outcome(r) == enum_options(attrs@),
{
    if let Some(idx) = find_attr(attrs, "byte") {
        if let MetaSyntax::List { name_values, .. } = &attrs[idx].meta {
            return match name_values {
                Ok(args) => apply_enum_args(args),
                Err(e) => Err(copy_error(e)),
            };
        }
    }
    Ok((None, false))
}

impl EnumDef {
    /// The enum that `input` declares.
    pub fn parse(input: EnumSyntax) -> (r: Result<Self, DeriveError>)
        requires
            !enum_parse_panics(input),
        ensures
            match r {
                Ok(def) => {
                    &&& enum_repr(input) == Ok::<String, ErrorView>(def.repr_ty)
                    &&& enum_options(input.attrs@) == Ok::<(Option<String>, bool), ErrorView>(
                        (def.ctx, def.no_tag),
                    )
                    &&& def.ident == input.ident
                    &&& def.generics == input.generics
                    &&& def.variants@.len() == input.variants@.len()
                    &&& forall|i: int|
                        0 <= i < input.variants@.len() ==> variant_matches(
                            #[trigger] def.variants@[i],
                            input.variants@[i],
                        )
                },
                Err(e) => match enum_repr(input) {
                    Err(repr_error) => e@ == repr_error,
                    Ok(_) => enum_options(input.attrs@) == Err::<(Option<String>, bool), ErrorView>(e@),
                },
            },
    {
        let repr_ty = match enum_repr_type(&input) {
            Ok(t) => t,
            Err(e) => {
                return Err(e);
            },
        };
        let ghost orig = input.variants@;
        let total = input.variants.len();
        let mut rest = input.variants;
        let mut variants: Vec<EnumVariant> = Vec::new();
        let mut idx: usize = 0;
        proof {
            assert(orig.skip(0) =~= orig);
        }
        while rest.len() > 0
            invariant
                variants_valid(orig),
                orig.len() == total,
                idx <= orig.len(),
                rest@ == orig.skip(idx as int),
                variants@.len() == idx,
                forall|j: int| 0 <= j < idx ==> variant_matches(#[trigger] variants@[j], orig[j]),
            decreases rest@.len(),
        {
            let v = rest.remove(0);
            proof {
                assert(v == orig[idx as int]);
                assert(orig.skip(idx as int).remove(0) =~= orig.skip(idx + 1));
            }
            variants.push(EnumVariant::from_syntax(v));
            idx = idx + 1;
        }
        proof {
            assert(orig.skip(idx as int).len() == 0);
        }
        let (ctx, no_tag) = match enum_attrs_options(&input.attrs) {
            Ok(opts) => opts,
            Err(e) => {
                return Err(e);
            },
        };
        Ok(EnumDef { ctx, ident: input.ident, repr_ty, generics: input.generics, variants, no_tag })
    }
}

// ---------------------------------------------------------------------------
// Items

/// Whether reading `input` as an item panics.
pub open spec fn parse_panics(input: ItemSyntax) -> bool {
    match input {
        ItemSyntax::Struct(s) => !fields_attrs_valid(s.fields),
        ItemSyntax::Enum(e) => enum_parse_panics(e),
        ItemSyntax::Other { .. } => false,
    }
}

/// Whether `r` is what reading `input` as an item gives: the item it
/// declares, or the diagnostic for the first attribute that is not understood.
pub open spec fn parsed_as(r: Result<ObjectDef, DeriveError>, input: ItemSyntax) -> bool {
    match input {
        ItemSyntax::Struct(s) => match r {
            Ok(ObjectDef::Struct(def)) => {
                &&& struct_attrs(None, s.attrs@) == Ok::<Option<String>, ErrorView>(def.ctx)
                &&& def.ident == s.ident
                &&& def.generics == s.generics
                &&& fields_match(def.fields, s.fields)
            },
            Ok(ObjectDef::Enum(_)) => false,
            Err(e) => struct_attrs(None, s.attrs@) == Err::<Option<String>, ErrorView>(e@),
        },
        ItemSyntax::Enum(en) => match r {
            Ok(ObjectDef::Enum(def)) => {
                &&& enum_repr(en) == Ok::<String, ErrorView>(def.repr_ty)
                &&& enum_options(en.attrs@) == Ok::<(Option<String>, bool), ErrorView>(
                    (def.ctx, def.no_tag),
                )
                &&& def.ident == en.ident
                &&& def.generics == en.generics
                &&& def.variants@.len() == en.variants@.len()
                &&& forall|i: int|
                    0 <= i < en.variants@.len() ==> variant_matches(
                        #[trigger] def.variants@[i],
                        en.variants@[i],
                    )
            },
            Ok(ObjectDef::Struct(_)) => false,
            Err(e) => match enum_repr(en) {
                Err(repr_error) => e@ == repr_error,
                Ok(_) => enum_options(en.attrs@) == Err::<(Option<String>, bool), ErrorView>(
                    e@,
                ),
            },
        },
        ItemSyntax::Other { site } => outcome(r) == fail::<ObjectDef>(
            "not enum or struct"@,
            site,
        ),
    }
}

impl ObjectDef {
    /// The item that `input` declares.
    pub fn parse(input: ItemSyntax) -> (r: Result<Self, DeriveError>)
        requires
            !parse_panics(input),
        ensures
            parsed_as(r, input),
    {
        match input {
            ItemSyntax::Struct(s) => match StructDef::parse(s) {
                Ok(def) => Ok(ObjectDef::Struct(def)),
                Err(e) => Err(e),
            },
            ItemSyntax::Enum(e) => match EnumDef::parse(e) {
                Ok(def) => Ok(ObjectDef::Enum(def)),
                Err(e) => Err(e),
            },
            ItemSyntax::Other { site } => Err(
                DeriveError { message: "not enum or struct".to_owned(), site },
            ),
        }
    }
}

// ---------------------------------------------------------------------------
// Generated code

/// The context type of the impls: the one given, or `::byte::ctx::Endian`.
pub open spec fn ctx_type_text(ctx: Option<String>) -> Seq<char> {
    match ctx {
        Some(c) => c@,
        None => "::byte::ctx::Endian"@,
    }
}

fn ctx_type(ctx: &Option<String>) -> (s: String)
    ensures
        s@ == ctx_type_text(*ctx),
{
    match ctx {
        Some(c) => c.clone(),
        None => "::byte::ctx::Endian".to_owned(),
    }
}

/// The reads of `fields`, in order.
pub open spec fn fields_read_text(fields: Seq<Field>) -> Seq<char>
    decreases fields.len(),
{
    if fields.len() == 0 {
        Seq::empty()
    } else {
        fields_read_text(fields.drop_last()) + fields.last().read_text()
    }
}

/// The writes of `fields`, in order, each as a place in `self` when `self_ref`.
pub open spec fn fields_write_text(fields: Seq<Field>, self_ref: bool) -> Seq<char>
    decreases fields.len(),
{
    if fields.len() == 0 {
        Seq::empty()
    } else {
        fields_write_text(fields.drop_last(), self_ref) + fields.last().write_text(self_ref)
    }
}

/// The names of `fields`, each followed by a comma.
pub open spec fn fields_list_text(fields: Seq<Field>) -> Seq<char>
    decreases fields.len(),
{
    if fields.len() == 0 {
        Seq::empty()
    } else {
        fields_list_text(fields.drop_last()) + fields.last().ident_text() + " , "@
    }
}

/// The names of `fields`, separated by commas.
pub open spec fn fields_joined_text(fields: Seq<Field>) -> Seq<char>
    decreases fields.len(),
{
    if fields.len() == 0 {
        Seq::empty()
    } else if fields.len() == 1 {
        fields[0].ident_text()
    } else {
        fields_joined_text(fields.drop_last()) + " , "@ + fields.last().ident_text()
    }
}

/// Whether code that reads every one of `fields` can be generated.
pub open spec fn all_read_supported(fields: Seq<Field>) -> bool {
    forall|i: int| 0 <= i < fields.len() ==> (#[trigger] fields[i]).read_supported()
}

/// Whether code that writes every one of `fields` can be generated.
pub open spec fn all_write_supported(fields: Seq<Field>) -> bool {
    forall|i: int| 0 <= i < fields.len() ==> (#[trigger] fields[i]).write_supported()
}

/// The fields of an optional field list; none for `None`.
pub open spec fn field_seq(fields: Option<Fields>) -> Seq<Field> {
    match fields {
        Some(f) => f.fields(),
        None => Seq::empty(),
    }
}

/// Appends the reads of `fields`, in order.
fn push_field_reads(fields: &Vec<Field>, out: &mut String)
    requires
        all_read_supported(fields@),
    ensures
        final(out)@ == old(out)@ + fields_read_text(fields@),
{
    let mut i: usize = 0;
    while i < fields.len()
        invariant
            i <= fields@.len(),
            all_read_supported(fields@),
            out@ == old(out)@ + fields_read_text(fields@.take(i as int)),
        decreases fields@.len() - i,
    {
        proof {
            assert(fields@.take(i + 1).drop_last() =~= fields@.take(i as int));
            assert(fields@.take(i + 1).last() == fields@[i as int]);
            assert(fields@[i as int].read_supported());
        }
        fields[i].try_read_to_tokens(out);
        i = i + 1;
    }
    proof {
        assert(fields@.take(fields@.len() as int) =~= fields@);
    }
}

/// Appends the writes of `fields`, in order.
fn push_field_writes(fields: &Vec<Field>, out: &mut String, self_ref: bool)
    requires
        all_write_supported(fields@),
    ensures
        final(out)@ == old(out)@ + fields_write_text(fields@, self_ref),
{
    let mut i: usize = 0;
    while i < fields.len()
        invariant
            i <= fields@.len(),
            all_write_supported(fields@),
            out@ == old(out)@ + fields_write_text(fields@.take(i as int), self_ref),
        decreases fields@.len() - i,
    {
        proof {
            assert(fields@.take(i + 1).drop_last() =~= fields@.take(i as int));
            assert(fields@.take(i + 1).last() == fields@[i as int]);
            assert(fields@[i as int].write_supported());
        }
        fields[i].try_write_to_tokens(out, self_ref);
        i = i + 1;
    }
    proof {
        assert(fields@.take(fields@.len() as int) =~= fields@);
    }
}

/// Appends the names of `fields`, each followed by a comma.
fn push_field_list(fields: &Vec<Field>, out: &mut String)
    ensures
        final(out)@ == old(out)@ + fields_list_text(fields@),
{
    let mut i: usize = 0;
    while i < fields.len()
        invariant
            i <= fields@.len(),
            out@ == old(out)@ + fields_list_text(fields@.take(i as int)),
        decreases fields@.len() - i,
    {
        proof {
            assert(fields@.take(i + 1).drop_last() =~= fields@.take(i as int));
            assert(fields@.take(i + 1).last() == fields@[i as int]);
        }
        let ident = fields[i].get_ident();
        out.append(ident.as_str());
        out.append(" , ");
        i = i + 1;
    }
    proof {
        assert(fields@.take(fields@.len() as int) =~= fields@);
    }
}

/// Appends the names of `fields`, separated by commas.
fn push_field_names(fields: &Vec<Field>, out: &mut String)
    ensures
        final(out)@ == old(out)@ + fields_joined_text(fields@),
{
    let mut i: usize = 0;
    while i < fields.len()
        invariant
            i <= fields@.len(),
            out@ == old(out)@ + fields_joined_text(fields@.take(i as int)),
        decreases fields@.len() - i,
    {
        proof {
            assert(fields@.take(i + 1).drop_last() =~= fields@.take(i as int));
            assert(fields@.take(i + 1).last() == fields@[i as int]);
            if i == 0 {
                assert(fields@.take(1)[0] == fields@[0]);
            }
        }
        if i > 0 {
            out.append(" , ");
        }
        let ident = fields[i].get_ident();
        out.append(ident.as_str());
        i = i + 1;
    }
    proof {
        assert(fields@.take(fields@.len() as int) =~= fields@);
    }
}

impl StructDef {
    /// The fields, in order.
    pub open spec fn field_seq(self) -> Seq<Field> {
        field_seq(self.fields)
    }

    /// The value the generated `try_read` builds from the fields it read.
    pub open spec fn self_obj_text(self) -> Seq<char> {
        match self.fields {
            None => "Self"@,
            Some(Fields::Named(v)) => "Self { "@ + fields_list_text(v@) + "}"@,
            Some(Fields::Unnamed(v)) => "Self( "@ + fields_list_text(v@) + ")"@,
        }
    }

    /// The generated `TryRead` impl.
    pub open spec fn read_impl_text(self) -> Seq<char> {
        let g = self.generics@;
        let ctx = ctx_type_text(self.ctx);
        "impl< "@ + g + " > ::byte::TryRead<'_, "@ + ctx + " > for "@ + self.ident@ + " < "@ + g
            + " > { fn try_read(bytes: &'_ [u8], ctx: "@ + ctx
            + " ) -> ::byte::Result<(Self, usize)> { use ::byte::BytesExt; "@ + "let offset = &mut 0; "@
            + fields_read_text(self.field_seq()) + "Ok(( "@ + self.self_obj_text()
            + " , *offset)) } } "@
    }

    /// The generated `TryWrite` impls, for a reference and for a value.
    pub open spec fn write_impl_text(self) -> Seq<char> {
        let g = self.generics@;
        let ctx = ctx_type_text(self.ctx);
        "impl< "@ + g + " > ::byte::TryWrite< "@ + ctx + " > for & "@ + self.ident@ + " < "@ + g
            + " > { fn try_write(self, bytes: &mut [u8], ctx: "@ + ctx
            + " ) -> ::byte::Result<usize> { use ::byte::BytesExt; "@ + "let offset = &mut 0; "@
            + fields_write_text(self.field_seq(), true) + "Ok(*offset) "@ + "} } impl< "@ + g
            + " > ::byte::TryWrite< "@ + ctx + " > for "@ + self.ident@ + " < "@ + g
            + " > { fn try_write(self, bytes: &mut [u8], ctx: "@ + ctx
            + " ) -> ::byte::Result<usize> { (&self).try_write(bytes, ctx) } } "@
    }

    /// Appends the generated `TryRead` impl.
    pub fn try_read_to_tokens(&self, tokens: &mut String)
        requires
            all_read_supported(self.field_seq()),
        ensures
            final(tokens)@ == old(tokens)@ + self.read_impl_text(),
    {
        let mut try_read_parse = String::new();
        let mut self_obj = String::new();
        match &self.fields {
            None => self_obj.append("Self"),
            Some(fields) => {
                let list = fields.get_fields();
                push_field_reads(list, &mut try_read_parse);
                let mut self_fields = String::new();
                push_field_list(list, &mut self_fields);
                match fields {
                    Fields::Named(_) => {
                        self_obj.append("Self { ");
                        self_obj.append(self_fields.as_str());
                        self_obj.append("}");
                    },
                    Fields::Unnamed(_) => {
                        self_obj.append("Self( ");
                        self_obj.append(self_fields.as_str());
                        self_obj.append(")");
                    },
                }
            },
        }
        let ctx = ctx_type(&self.ctx);
        let generics = self.generics.as_str();
        let mut s = "impl< ".to_owned();
        s.append(generics);
        s.append(" > ::byte::TryRead<'_, ");
        s.append(ctx.as_str());
        s.append(" > for ");
        s.append(self.ident.as_str());
        s.append(" < ");
        s.append(generics);
        s.append(" > { fn try_read(bytes: &'_ [u8], ctx: ");
        s.append(ctx.as_str());
        s.append(" ) -> ::byte::Result<(Self, usize)> { use ::byte::BytesExt; ");
        s.append("let offset = &mut 0; ");
        s.append(try_read_parse.as_str());
        s.append("Ok(( ");
        s.append(self_obj.as_str());
        s.append(" , *offset)) } } ");
        tokens.append(s.as_str());
    }

    /// Appends the generated `TryWrite` impls.
    pub fn try_write_to_tokens(&self, tokens: &mut String)
        requires
            all_write_supported(self.field_seq()),
        ensures
            final(tokens)@ == old(tokens)@ + self.write_impl_text(),
    {
        let mut try_write_parse = String::new();
        match &self.fields {
            None => {},
            Some(fields) => {
                push_field_writes(fields.get_fields(), &mut try_write_parse, true);
            },
        }
        let ctx = ctx_type(&self.ctx);
        let generics = self.generics.as_str();
        let mut s = "impl< ".to_owned();
        s.append(generics);
        s.append(" > ::byte::TryWrite< ");
        s.append(ctx.as_str());
        s.append(" > for & ");
        s.append(self.ident.as_str());
        s.append(" < ");
        s.append(generics);
        s.append(" > { fn try_write(self, bytes: &mut [u8], ctx: ");
        s.append(ctx.as_str());
        s.append(" ) -> ::byte::Result<usize> { use ::byte::BytesExt; ");
        s.append("let offset = &mut 0; ");
        s.append(try_write_parse.as_str());
        s.append("Ok(*offset) ");
        s.append("} } impl< ");
        s.append(generics);
        s.append(" > ::byte::TryWrite< ");
        s.append(ctx.as_str());
        s.append(" > for ");
        s.append(self.ident.as_str());
        s.append(" < ");
        s.append(generics);
        s.append(" > { fn try_write(self, bytes: &mut [u8], ctx: ");
        s.append(ctx.as_str());
        s.append(" ) -> ::byte::Result<usize> { (&self).try_write(bytes, ctx) } } ");
        tokens.append(s.as_str());
    }
}

impl EnumVariant {
    /// The fields, in order.
    pub open spec fn field_seq(self) -> Seq<Field> {
        field_seq(self.fields)
    }

    /// The variant as a constructor expression and as a pattern.
    pub open spec fn ctor_text(self) -> Seq<char> {
        match self.fields {
            Some(Fields::Named(v)) => "Self:: "@ + self.ident@ + " { "@ + fields_joined_text(v@)
                + " }"@,
            Some(Fields::Unnamed(v)) => "Self:: "@ + self.ident@ + " ( "@ + fields_joined_text(v@)
                + " )"@,
            None => "Self:: "@ + self.ident@,
        }
    }

    /// The reads of the variant's fields followed by the value they build.
    pub open spec fn read_block_text(self) -> Seq<char> {
        match self.fields {
            Some(_) => fields_read_text(self.field_seq()) + self.ctor_text(),
            None => self.ctor_text(),
        }
    }

    /// The writes of the variant's fields, bound by name.
    pub open spec fn write_block_text(self) -> Seq<char> {
        fields_write_text(self.field_seq(), false)
    }

    /// The match arm that reads the variant once its tag is known.
    pub open spec fn read_arm_text(self) -> Seq<char> {
        self.discriminant@ + " => { "@ + self.read_block_text() + " }, "@
    }

    /// The match arm that writes the variant: its tag first, as `repr_ty`, unless `no_tag`.
    pub open spec fn write_arm_text(self, repr_ty: Seq<char>, no_tag: bool) -> Seq<char> {
        if no_tag {
            self.ctor_text() + " => { "@ + self.write_block_text() + "} "@
        } else {
            self.ctor_text() + " => { bytes.write_with(offset, "@ + self.discriminant@ + " as "@
                + repr_ty + " , byte::LE)?; "@ + self.write_block_text() + "} "@
        }
    }

    /// The variant as a constructor expression and as a pattern.
    pub fn make_ctor(&self) -> (s: String)
        ensures
            s@ == self.ctor_text(),
    {
        let mut s = "Self:: ".to_owned();
        s.append(self.ident.as_str());
        match &self.fields {
            Some(fields) => {
                match fields {
                    Fields::Named(v) => {
                        s.append(" { ");
                        push_field_names(v, &mut s);
                        s.append(" }");
                    },
                    Fields::Unnamed(v) => {
                        s.append(" ( ");
                        push_field_names(v, &mut s);
                        s.append(" )");
                    },
                }
            },
            None => {},
        }
        s
    }

    /// The reads of the variant's fields followed by the value they build.
    pub fn make_try_read_block(&self) -> (s: String)
        requires
            all_read_supported(self.field_seq()),
        ensures
            s@ == self.read_block_text(),
    {
        match &self.fields {
            Some(fields) => {
                let mut block = String::new();
                push_field_reads(fields.get_fields(), &mut block);
                let ctor = self.make_ctor();
                block.append(ctor.as_str());
                block
            },
            None => self.make_ctor(),
        }
    }

    /// The writes of the variant's fields, bound by name.
    pub fn make_try_write_block(&self) -> (s: String)
        requires
            all_write_supported(self.field_seq()),
        ensures
            s@ == self.write_block_text(),
    {
        let mut block = String::new();
        match &self.fields {
            Some(fields) => push_field_writes(fields.get_fields(), &mut block, false),
            None => {},
        }
        block
    }

    /// Appends the match arm that reads the variant.
    pub fn try_read_to_tokens(&self, tokens: &mut String)
        requires
            all_read_supported(self.field_seq()),
        ensures
            final(tokens)@ == old(tokens)@ + self.read_arm_text(),
    {
        let try_read_block = self.make_try_read_block();
        tokens.append(self.discriminant.as_str());
        tokens.append(" => { ");
        tokens.append(try_read_block.as_str());
        tokens.append(" }, ");
    }

    /// Appends the match arm that writes the variant.
    pub fn try_write_to_tokens(&self, tokens: &mut String, repr_ty: &String, no_tag: bool)
        requires
            all_write_supported(self.field_seq()),
        ensures
            final(tokens)@ == old(tokens)@ + self.write_arm_text(repr_ty@, no_tag),
    {
        let try_write_block = self.make_try_write_block();
        let ctor = self.make_ctor();
        tokens.append(ctor.as_str());
        if no_tag {
            tokens.append(" => { ");
        } else {
            tokens.append(" => { bytes.write_with(offset, ");
            tokens.append(self.discriminant.as_str());
            tokens.append(" as ");
            tokens.append(repr_ty.as_str());
            tokens.append(" , byte::LE)?; ");
        }
        tokens.append(try_write_block.as_str());
        tokens.append("} ");
    }
}

/// The read arms of `variants`, in order.
pub open spec fn arms_read_text(variants: Seq<EnumVariant>) -> Seq<char>
    decreases variants.len(),
{
    if variants.len() == 0 {
        Seq::empty()
    } else {
        arms_read_text(variants.drop_last()) + variants.last().read_arm_text()
    }
}

/// The write arms of `variants`, in order.
pub open spec fn arms_write_text(variants: Seq<EnumVariant>, repr_ty: Seq<char>, no_tag: bool) -> Seq<char>
    decreases variants.len(),
{
    if variants.len() == 0 {
        Seq::empty()
    } else {
        arms_write_text(variants.drop_last(), repr_ty, no_tag) + variants.last().write_arm_text(
            repr_ty,
            no_tag,
        )
    }
}

/// Whether code that reads every field of every one of `variants` can be generated.
pub open spec fn variants_read_supported(variants: Seq<EnumVariant>) -> bool {
    forall|i: int| 0 <= i < variants.len() ==> all_read_supported((#[trigger] variants[i]).field_seq())
}

/// Whether code that writes every field of every one of `variants` can be generated.
pub open spec fn variants_write_supported(variants: Seq<EnumVariant>) -> bool {
    forall|i: int|
        0 <= i < variants.len() ==> all_write_supported((#[trigger] variants[i]).field_seq())
}

impl EnumDef {
    /// The match expression that reads the variant for a known `discriminant`.
    pub open spec fn match_read_text(self) -> Seq<char> {
        "let value = match discriminant { "@ + arms_read_text(self.variants@)
            + "_ => { "@
            + "return Err(byte::Error::BadInput { err: \"unknown enum tag received\" }) } }; Ok((value, *offset)) } } "@
    }

    /// The generated `TryRead` impls: one that reads the tag first, and one
    /// that is given it.
    pub open spec fn read_impl_text(self) -> Seq<char> {
        let g = self.generics@;
        let ctx = ctx_type_text(self.ctx);
        let repr = self.repr_ty@;
        "impl< "@ + g + " > ::byte::TryRead<'_, "@ + ctx + " > for "@ + self.ident@ + " < "@ + g
            + " > { fn try_read(bytes: &'_ [u8], ctx: "@ + ctx
            + " ) -> ::byte::Result<(Self, usize)> { use ::byte::BytesExt; "@ + "let offset = &mut 0; "@
            + "let discriminant = bytes.read_with::< "@
            + repr + " >(offset, byte::LE)?; "@ + self.match_read_text() + "impl< "@ + g
            + " > ::byte::TryRead<'_, "@ + repr + " > for "@ + self.ident@ + " < "@ + g
            + " > { fn try_read(bytes: &'_ [u8], discriminant: "@ + repr
            + " ) -> ::byte::Result<(Self, usize)> { use ::byte::BytesExt; let offset = &mut 0; let ctx = byte::LE; "@
            + self.match_read_text()
    }

    /// The generated `TryWrite` impl.
    pub open spec fn write_impl_text(self) -> Seq<char> {
        let g = self.generics@;
        let ctx = ctx_type_text(self.ctx);
        "impl< "@ + g + " > ::byte::TryWrite< "@ + ctx + " > for "@ + self.ident@ + " < "@ + g
            + " > { fn try_write(self, bytes: &mut [u8], ctx: "@ + ctx
            + " ) -> ::byte::Result<usize> { use ::byte::BytesExt; let offset = &mut 0; "@ + "match self { "@
            + arms_write_text(self.variants@, self.repr_ty@, self.no_tag) + "} "@ + "Ok(*offset) } } "@
    }

    /// Appends the generated `TryRead` impls.
    pub fn try_read_to_tokens(&self, tokens: &mut String)
        requires
            variants_read_supported(self.variants@),
        ensures
            final(tokens)@ == old(tokens)@ + self.read_impl_text(),
    {
        let generics = self.generics.as_str();
        let ident = self.ident.as_str();
        let repr_ty = self.repr_ty.as_str();
        let mut inner = String::new();
        let mut i: usize = 0;
        while i < self.variants.len()
            invariant
                i <= self.variants@.len(),
                variants_read_supported(self.variants@),
                inner@ == arms_read_text(self.variants@.take(i as int)),
            decreases self.variants@.len() - i,
        {
            proof {
                assert(self.variants@.take(i + 1).drop_last() =~= self.variants@.take(i as int));
                assert(self.variants@.take(i + 1).last() == self.variants@[i as int]);
                assert(all_read_supported(self.variants@[i as int].field_seq()));
            }
            self.variants[i].try_read_to_tokens(&mut inner);
            i = i + 1;
        }
        proof {
            assert(self.variants@.take(self.variants@.len() as int) =~= self.variants@);
        }
        let ctx = ctx_type(&self.ctx);
        let mut matched = "let value = match discriminant { ".to_owned();
        matched.append(inner.as_str());
        matched.append("_ => { ");
        matched.append(
            "return Err(byte::Error::BadInput { err: \"unknown enum tag received\" }) } }; Ok((value, *offset)) } } ",
        );
        let mut s = "impl< ".to_owned();
        s.append(generics);
        s.append(" > ::byte::TryRead<'_, ");
        s.append(ctx.as_str());
        s.append(" > for ");
        s.append(ident);
        s.append(" < ");
        s.append(generics);
        s.append(" > { fn try_read(bytes: &'_ [u8], ctx: ");
        s.append(ctx.as_str());
        s.append(" ) -> ::byte::Result<(Self, usize)> { use ::byte::BytesExt; ");
        s.append("let offset = &mut 0; ");
        s.append("let discriminant = bytes.read_with::< ");
        s.append(repr_ty);
        s.append(" >(offset, byte::LE)?; ");
        s.append(matched.as_str());
        s.append("impl< ");
        s.append(generics);
        s.append(" > ::byte::TryRead<'_, ");
        s.append(repr_ty);
        s.append(" > for ");
        s.append(ident);
        s.append(" < ");
        s.append(generics);
        s.append(" > { fn try_read(bytes: &'_ [u8], discriminant: ");
        s.append(repr_ty);
        s.append(
            " ) -> ::byte::Result<(Self, usize)> { use ::byte::BytesExt; let offset = &mut 0; let ctx = byte::LE; ",
        );
        s.append(matched.as_str());
        tokens.append(s.as_str());
    }

    /// Appends the generated `TryWrite` impl.
    pub fn try_write_to_tokens(&self, tokens: &mut String)
        requires
            variants_write_supported(self.variants@),
        ensures
            final(tokens)@ == old(tokens)@ + self.write_impl_text(),
    {
        let generics = self.generics.as_str();
        let ident = self.ident.as_str();
        let mut inner = String::new();
        let mut i: usize = 0;
        while i < self.variants.len()
            invariant
                i <= self.variants@.len(),
                variants_write_supported(self.variants@),
                inner@ == arms_write_text(self.variants@.take(i as int), self.repr_ty@, self.no_tag),
            decreases self.variants@.len() - i,
        {
            proof {
                assert(self.variants@.take(i + 1).drop_last() =~= self.variants@.take(i as int));
                assert(self.variants@.take(i + 1).last() == self.variants@[i as int]);
                assert(all_write_supported(self.variants@[i as int].field_seq()));
            }
            self.variants[i].try_write_to_tokens(&mut inner, &self.repr_ty, self.no_tag);
            i = i + 1;
        }
        proof {
            assert(self.variants@.take(self.variants@.len() as int) =~= self.variants@);
        }
        let ctx = ctx_type(&self.ctx);
        let mut s = "impl< ".to_owned();
        s.append(generics);
        s.append(" > ::byte::TryWrite< ");
        s.append(ctx.as_str());
        s.append(" > for ");
        s.append(ident);
        s.append(" < ");
        s.append(generics);
        s.append(" > { fn try_write(self, bytes: &mut [u8], ctx: ");
        s.append(ctx.as_str());
        s.append(" ) -> ::byte::Result<usize> { use ::byte::BytesExt; let offset = &mut 0; ");
        s.append("match self { ");
        s.append(inner.as_str());
        s.append("} ");
        s.append("Ok(*offset) } } ");
        tokens.append(s.as_str());
    }
}

impl ObjectDef {
    /// Whether code that reads the item can be generated.
    pub open spec fn read_supported(self) -> bool {
        match self {
            ObjectDef::Struct(s) => all_read_supported(s.field_seq()),
            ObjectDef::Enum(e) => variants_read_supported(e.variants@),
        }
    }

    /// Whether code that writes the item can be generated.
    pub open spec fn write_supported(self) -> bool {
        match self {
            ObjectDef::Struct(s) => all_write_supported(s.field_seq()),
            ObjectDef::Enum(e) => variants_write_supported(e.variants@),
        }
    }

    /// The generated `TryRead` impls.
    pub open spec fn read_impl_text(self) -> Seq<char> {
        match self {
            ObjectDef::Struct(s) => s.read_impl_text(),
            ObjectDef::Enum(e) => e.read_impl_text(),
        }
    }

    /// The generated `TryWrite` impls.
    pub open spec fn write_impl_text(self) -> Seq<char> {
        match self {
            ObjectDef::Struct(s) => s.write_impl_text(),
            ObjectDef::Enum(e) => e.write_impl_text(),
        }
    }

    /// Appends the generated `TryRead` impls.
    pub fn try_read_to_tokens(&self, tokens: &mut String)
        requires
            self.read_supported(),
        ensures
            final(tokens)@ == old(tokens)@ + self.read_impl_text(),
    {
        match self {
            ObjectDef::Struct(strct) => strct.try_read_to_tokens(tokens),
            ObjectDef::Enum(enm) => enm.try_read_to_tokens(tokens),
        }
    }

    /// Appends the generated `TryWrite` impls.
    pub fn try_write_to_tokens(&self, tokens: &mut String)
        requires
            self.write_supported(),
        ensures
            final(tokens)@ == old(tokens)@ + self.write_impl_text(),
    {
        match self {
            ObjectDef::Struct(strct) => strct.try_write_to_tokens(tokens),
            ObjectDef::Enum(enm) => enm.try_write_to_tokens(tokens),
        }
    }
}

} // verus!
