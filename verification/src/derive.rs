//! The two derives: from the syntax of an item to the text of the impls.
use vstd::prelude::*;
use crate::config::{FieldConfig, field_config};
use crate::field::{
    Field, field_attrs_valid, field_from_syntax, fields_attrs_valid, type_read_supported,
    type_supported, type_write_supported,
};
use crate::item::{
    ObjectDef, all_read_supported, all_write_supported, enum_attrs_options, enum_options,
    enum_parse_panics, enum_repr, enum_repr_type, field_seq, parse_panics, parsed_as, struct_attrs,
    struct_options, variants_valid,
};
use crate::syntax::{DeriveError, FieldSyntax, FieldsSyntax, ItemSyntax, VariantSyntax};

verus! {

/// Whether reading `input` as an item succeeds, rather than giving a diagnostic.
pub open spec fn parse_succeeds(input: ItemSyntax) -> bool {
    match input {
        ItemSyntax::Struct(s) => struct_attrs(None, s.attrs@) is Ok,
        ItemSyntax::Enum(e) => enum_repr(e) is Ok && enum_options(e.attrs@) is Ok,
        ItemSyntax::Other { .. } => false,
    }
}

/// Whether code that reads (when `for_read`) or writes the field `f` can be generated.
pub open spec fn field_syntax_supported(f: FieldSyntax, for_read: bool) -> bool {
    &&& field_config(f.attrs@) is Ok
    &&& {
        ||| field_config(f.attrs@)->Ok_0.ignore
        ||| if for_read {
            type_read_supported(f.ty)
        } else {
            type_write_supported(f.ty)
        }
    }
}

/// Whether code that reads (when `for_read`) or writes each of the fields
/// `fields` can be generated.
pub open spec fn field_list_supported(fields: Seq<FieldSyntax>, for_read: bool) -> bool {
    forall|i: int| 0 <= i < fields.len() ==> field_syntax_supported(#[trigger] fields[i], for_read)
}

/// Whether code that reads (when `for_read`) or writes each field of `fields`
/// can be generated.
pub open spec fn fields_supported(fields: FieldsSyntax, for_read: bool) -> bool {
    match fields {
        FieldsSyntax::Named(v) => field_list_supported(v@, for_read),
        FieldsSyntax::Unnamed(v) => field_list_supported(v@, for_read),
        FieldsSyntax::Unit => true,
    }
}

/// Whether code that reads (when `for_read`) or writes every field of the
/// item `input` can be generated.
pub open spec fn item_fields_supported(input: ItemSyntax, for_read: bool) -> bool {
    match input {
        ItemSyntax::Struct(s) => fields_supported(s.fields, for_read),
        ItemSyntax::Enum(e) => forall|i: int|
            0 <= i < e.variants@.len() ==> fields_supported(
                (#[trigger] e.variants@[i]).fields,
                for_read,
            ),
        ItemSyntax::Other { .. } => true,
    }
}

/// Whether deriving `TryRead` (when `for_read`) or `TryWrite` for `input`
/// panics: reading the item panics, or it succeeds and has a field whose
/// code cannot be generated.
pub open spec fn derive_panics(input: ItemSyntax, for_read: bool) -> bool {
    ||| parse_panics(input)
    ||| (parse_succeeds(input) && !item_fields_supported(input, for_read))
}

/// The fields that a supported field list declares are supported.
proof fn lemma_field_list_supported(fields: Seq<Field>, syntax: Seq<FieldSyntax>, named: bool, for_read: bool)
    requires
        crate::field::field_list_matches(fields, syntax, named),
        field_list_supported(syntax, for_read),
    ensures
        for_read ==> all_read_supported(fields),
        !for_read ==> all_write_supported(fields),
{
    assert forall|i: int| 0 <= i < fields.len() implies (if for_read {
        (#[trigger] fields[i]).read_supported()
    } else {
        fields[i].write_supported()
    }) by {
        assert(fields[i] == field_from_syntax(syntax[i], i, named));
        assert(field_syntax_supported(syntax[i], for_read));
    }
}

proof fn lemma_fields_supported(fields: Option<crate::field::Fields>, syntax: FieldsSyntax, for_read: bool)
    requires
        crate::field::fields_match(fields, syntax),
        fields_supported(syntax, for_read),
    ensures
        for_read ==> all_read_supported(field_seq(fields)),
        !for_read ==> all_write_supported(field_seq(fields)),
{
    match syntax {
        FieldsSyntax::Named(v) => {
            lemma_field_list_supported(field_seq(fields), v@, true, for_read);
        },
        FieldsSyntax::Unnamed(v) => {
            lemma_field_list_supported(field_seq(fields), v@, false, for_read);
        },
        FieldsSyntax::Unit => {},
    }
}

/// An item read from syntax whose fields are all supported can have its
/// code generated.
proof fn lemma_parsed_supported(def: ObjectDef, input: ItemSyntax, for_read: bool)
    requires
        parsed_as(Ok(def), input),
        item_fields_supported(input, for_read),
    ensures
        for_read ==> def.read_supported(),
        !for_read ==> def.write_supported(),
{
    match input {
        ItemSyntax::Struct(s) => {
            let sd = def->Struct_0;
            lemma_fields_supported(sd.fields, s.fields, for_read);
        },
        ItemSyntax::Enum(e) => {
            let ed = def->Enum_0;
            assert forall|i: int| 0 <= i < ed.variants@.len() implies (if for_read {
                all_read_supported((#[trigger] ed.variants@[i]).field_seq())
            } else {
                all_write_supported(ed.variants@[i].field_seq())
            }) by {
                assert(crate::item::variant_matches(ed.variants@[i], e.variants@[i]));
                assert(fields_supported(e.variants@[i].fields, for_read));
                lemma_fields_supported(ed.variants@[i].fields, e.variants@[i].fields, for_read);
            }
        },
        ItemSyntax::Other { .. } => {},
    }
}

/// Derives `TryRead` for `input`: the text of the impls, or the diagnostic
/// for the first attribute that is not understood.
pub fn try_read_derive(input: ItemSyntax) -> (r: Result<String, DeriveError>)
    requires
        !derive_panics(input, true),
    ensures
        r is Ok <==> parse_succeeds(input),
        match r {
            Ok(text) => exists|def: ObjectDef|
                parsed_as(Ok(def), input) && text@ == #[trigger] def.read_impl_text(),
            Err(e) => parsed_as(Err(e), input),
        },
{
    let ghost syntax = input;
    let ast = ObjectDef::parse(input);
    match ast {
        Ok(ast) => {
            proof {
                lemma_parsed_supported(ast, syntax, true);
            }
            let mut stream = String::new();
            ast.try_read_to_tokens(&mut stream);
            Ok(stream)
        },
        Err(e) => Err(e),
    }
}

/// Derives `TryWrite` for `input`: the text of the impls, or the diagnostic
/// for the first attribute that is not understood.
pub fn try_write_derive(input: ItemSyntax) -> (r: Result<String, DeriveError>)
    requires
        !derive_panics(input, false),
    ensures
        r is Ok <==> parse_succeeds(input),
        match r {
            Ok(text) => exists|def: ObjectDef|
                parsed_as(Ok(def), input) && text@ == #[trigger] def.write_impl_text(),
            Err(e) => parsed_as(Err(e), input),
        },
{
    let ghost syntax = input;
    let ast = ObjectDef::parse(input);
    match ast {
        Ok(ast) => {
            proof {
                lemma_parsed_supported(ast, syntax, false);
            }
            let mut stream = String::new();
            ast.try_write_to_tokens(&mut stream);
            Ok(stream)
        },
        Err(e) => Err(e),
    }
}

/// Whether the attributes of the field `f` are understood, and whether code
/// that reads (when `for_read`) or writes it can be generated.
fn check_field(f: &FieldSyntax, for_read: bool) -> (r: (bool, bool))
    ensures
        r.0 == (field_config(f.attrs@) is Ok),
        r.1 == field_syntax_supported(*f, for_read),
{
    match FieldConfig::from_attrs(&f.attrs) {
        Ok(cfg) => (true, cfg.ignore || type_supported(&f.ty, for_read)),
        Err(_) => (false, false),
    }
}

/// Whether the attributes of all the fields in `fields` are understood, and
/// whether code that reads (when `for_read`) or writes each of them can be
/// generated.
fn check_field_list(fields: &Vec<FieldSyntax>, for_read: bool) -> (r: (bool, bool))
    ensures
        r.0 == field_attrs_valid(fields@),
        r.1 == field_list_supported(fields@, for_read),
{
    let mut valid = true;
    let mut supported = true;
    let mut i: usize = 0;
    while i < fields.len()
        invariant
            i <= fields@.len(),
            valid == (forall|j: int| 0 <= j < i ==> (#[trigger] field_config(fields@[j].attrs@)) is Ok),
            supported == (forall|j: int|
                0 <= j < i ==> field_syntax_supported(#[trigger] fields@[j], for_read)),
        decreases fields@.len() - i,
    {
        let (v, s) = check_field(&fields[i], for_read);
        proof {
            if !v {
                assert(!(field_config(fields@[i as int].attrs@) is Ok));
            }
            if !s {
                assert(!field_syntax_supported(fields@[i as int], for_read));
            }
        }
        valid = valid && v;
        supported = supported && s;
        i = i + 1;
    }
    (valid, supported)
}

fn check_fields(fields: &FieldsSyntax, for_read: bool) -> (r: (bool, bool))
    ensures
        r.0 == fields_attrs_valid(*fields),
        r.1 == fields_supported(*fields, for_read),
{
    match fields {
        FieldsSyntax::Named(v) => check_field_list(v, for_read),
        FieldsSyntax::Unnamed(v) => check_field_list(v, for_read),
        FieldsSyntax::Unit => (true, true),
    }
}

/// Whether each variant has a discriminant and only understood field
/// attributes, and whether code that reads (when `for_read`) or writes every
/// field of every variant can be generated.
fn check_variants(variants: &Vec<VariantSyntax>, for_read: bool) -> (r: (bool, bool))
    ensures
        r.0 == variants_valid(variants@),
        r.1 == (forall|i: int|
            0 <= i < variants@.len() ==> fields_supported((#[trigger] variants@[i]).fields, for_read)),
{
    let mut valid = true;
    let mut supported = true;
    let mut i: usize = 0;
    while i < variants.len()
        invariant
            i <= variants@.len(),
            valid == (forall|j: int|
                0 <= j < i ==> {
                    &&& (#[trigger] variants@[j]).discriminant is Some
                    &&& fields_attrs_valid(variants@[j].fields)
                }),
            supported == (forall|j: int|
                0 <= j < i ==> fields_supported((#[trigger] variants@[j]).fields, for_read)),
        decreases variants@.len() - i,
    {
        let variant = &variants[i];
        let (v, s) = check_fields(&variant.fields, for_read);
        let has_discriminant = variant.discriminant.is_some();
        proof {
            if !(v && has_discriminant) {
                assert(!(variants@[i as int].discriminant is Some && fields_attrs_valid(
                    variants@[i as int].fields,
                )));
            }
            if !s {
                assert(!fields_supported(variants@[i as int].fields, for_read));
            }
        }
        valid = valid && v && has_discriminant;
        supported = supported && s;
        i = i + 1;
    }
    (valid, supported)
}

/// Whether deriving `TryRead` (when `for_read`) or `TryWrite` for `input` is
/// free of panics: the condition under which the derives may be called.
pub fn derive_supported(input: &ItemSyntax, for_read: bool) -> (b: bool)
    ensures
        b == !derive_panics(*input, for_read),
{
    match input {
        ItemSyntax::Struct(s) => {
            let (valid, supported) = check_fields(&s.fields, for_read);
            let succeeds = struct_options(&s.attrs).is_ok();
            valid && (!succeeds || supported)
        },
        ItemSyntax::Enum(e) => {
            let repr_ok = enum_repr_type(e).is_ok();
            let (valid, supported) = check_variants(&e.variants, for_read);
            let succeeds = repr_ok && enum_attrs_options(&e.attrs).is_ok();
            proof {
                assert(enum_parse_panics(*e) == (repr_ok && !valid));
            }
            !(repr_ok && !valid) && (!succeeds || supported)
        },
        ItemSyntax::Other { .. } => true,
    }
}

} // verus!
