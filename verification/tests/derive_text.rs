//! The impls the derives generate for the items of the `byte` derive's own
//! test suite, compared token by token with the code they must be.

use byte_derive::derive::{derive_supported, try_read_derive, try_write_derive};
use byte_derive::syntax::{
    AttributeSyntax, DeriveError, EnumSyntax, FieldSyntax, FieldsSyntax, GenericArgumentSyntax,
    ItemSyntax, MetaSyntax, NameValueSyntax, PathArgumentsSyntax, PathSegmentSyntax, PathSyntax,
    StructSyntax, TypeSyntax, VariantSyntax,
};

/// The tokens of `code`, one string each, with groups opened and closed:
/// spacing between punctuation does not count.
fn tokens(code: &str) -> Vec<String> {
    fn flatten(stream: proc_macro2::TokenStream, out: &mut Vec<String>) {
        for tree in stream {
            match tree {
                proc_macro2::TokenTree::Group(group) => {
                    out.push(format!("{:?}(", group.delimiter()));
                    flatten(group.stream(), out);
                    out.push(")".to_string());
                }
                proc_macro2::TokenTree::Punct(punct) => out.push(punct.as_char().to_string()),
                other => out.push(other.to_string()),
            }
        }
    }
    let mut out = Vec::new();
    flatten(code.parse::<proc_macro2::TokenStream>().expect("valid tokens"), &mut out);
    out
}

fn assert_code(generated: &str, expected: &str) {
    assert_eq!(tokens(generated), tokens(expected));
}

fn segment(name: &str) -> PathSegmentSyntax {
    PathSegmentSyntax { ident: name.to_string(), arguments: PathArgumentsSyntax::NoArguments }
}

fn path(names: &[&str]) -> PathSyntax {
    PathSyntax { leading_colon: false, segments: names.iter().map(|n| segment(n)).collect() }
}

/// A type named by one plain identifier, such as `u8` or `Inner`.
fn ty(name: &str) -> TypeSyntax {
    TypeSyntax::Path { path: path(&[name]), tokens: name.to_string() }
}

/// A path type whose last segment has generic arguments, such as `heapless::Vec<u16, 32>`.
fn generic(prefix: &[&str], name: &str, args: Vec<GenericArgumentSyntax>, args_tokens: &str) -> TypeSyntax {
    let mut segments: Vec<PathSegmentSyntax> = prefix.iter().map(|n| segment(n)).collect();
    segments.push(PathSegmentSyntax {
        ident: name.to_string(),
        arguments: PathArgumentsSyntax::AngleBracketed {
            args,
            args_tokens: args_tokens.to_string(),
            tokens: format!("< {} >", args_tokens),
        },
    });
    let mut text = String::new();
    for p in prefix {
        text.push_str(p);
        text.push_str(" :: ");
    }
    text.push_str(&format!("{} < {} >", name, args_tokens));
    TypeSyntax::Path { path: PathSyntax { leading_colon: false, segments }, tokens: text }
}

fn type_arg(t: TypeSyntax) -> GenericArgumentSyntax {
    GenericArgumentSyntax::Type(t)
}

fn const_arg(text: &str) -> GenericArgumentSyntax {
    GenericArgumentSyntax::Other { tokens: text.to_string() }
}

fn arg(key: &str, value: &str) -> NameValueSyntax {
    let value_bool = match value {
        "true" => Some(true),
        "false" => Some(false),
        _ => None,
    };
    NameValueSyntax { path: path(&[key]), value: value.to_string(), value_bool, site: 100, value_site: 101 }
}

fn list_attr(name: &str, args: Vec<NameValueSyntax>, as_type: Result<String, DeriveError>) -> AttributeSyntax {
    AttributeSyntax { path: path(&[name]), meta: MetaSyntax::List { name_values: Ok(args), as_type }, site: 7 }
}

fn byte_attr(args: Vec<NameValueSyntax>) -> AttributeSyntax {
    list_attr("byte", args, Err(DeriveError { message: "expected type".to_string(), site: 8 }))
}

fn repr_attr(repr: &str) -> AttributeSyntax {
    AttributeSyntax {
        path: path(&["repr"]),
        meta: MetaSyntax::List {
            name_values: Err(DeriveError { message: "expected `=`".to_string(), site: 9 }),
            as_type: Ok(repr.to_string()),
        },
        site: 10,
    }
}

fn named(name: &str, t: TypeSyntax, attrs: Vec<AttributeSyntax>) -> FieldSyntax {
    FieldSyntax { attrs, ident: name.to_string(), ty: t }
}

fn unnamed(t: TypeSyntax) -> FieldSyntax {
    FieldSyntax { attrs: vec![], ident: String::new(), ty: t }
}

fn strct(name: &str, fields: FieldsSyntax) -> ItemSyntax {
    ItemSyntax::Struct(StructSyntax { attrs: vec![], ident: name.to_string(), generics: String::new(), fields })
}

fn enm(name: &str, attrs: Vec<AttributeSyntax>, variants: Vec<VariantSyntax>) -> ItemSyntax {
    ItemSyntax::Enum(EnumSyntax { attrs, ident: name.to_string(), generics: String::new(), variants, site: 3 })
}

fn variant(name: &str, discriminant: &str, fields: FieldsSyntax) -> VariantSyntax {
    VariantSyntax { ident: name.to_string(), discriminant: Some(discriminant.to_string()), fields }
}

fn read(item: ItemSyntax) -> String {
    assert!(derive_supported(&item, true));
    try_read_derive(item).expect("read impls")
}

fn write(item: ItemSyntax) -> String {
    assert!(derive_supported(&item, false));
    try_write_derive(item).expect("write impls")
}

fn read_impl(ty: &str, body: &str, value: &str) -> String {
    format!(
        "impl<> ::byte::TryRead<'_, ::byte::ctx::Endian> for {ty}<> {{
            fn try_read(bytes: &'_ [u8], ctx: ::byte::ctx::Endian) -> ::byte::Result<(Self, usize)> {{
                use ::byte::BytesExt;
                let offset = &mut 0;
                {body}
                Ok(({value}, *offset))
            }}
        }}"
    )
}

fn write_impl(ty: &str, body: &str) -> String {
    format!(
        "impl<> ::byte::TryWrite<::byte::ctx::Endian> for &{ty}<> {{
            fn try_write(self, bytes: &mut [u8], ctx: ::byte::ctx::Endian) -> ::byte::Result<usize> {{
                use ::byte::BytesExt;
                let offset = &mut 0;
                {body}
                Ok(*offset)
            }}
        }}
        impl<> ::byte::TryWrite<::byte::ctx::Endian> for {ty}<> {{
            fn try_write(self, bytes: &mut [u8], ctx: ::byte::ctx::Endian) -> ::byte::Result<usize> {{
                (&self).try_write(bytes, ctx)
            }}
        }}"
    )
}

fn enum_read_impls(ty: &str, repr: &str, arms: &str) -> String {
    let matched = format!(
        "let value = match discriminant {{
            {arms}
            _ => {{ return Err(byte::Error::BadInput {{ err: \"unknown enum tag received\" }}) }}
        }};
        Ok((value, *offset))"
    );
    format!(
        "impl<> ::byte::TryRead<'_, ::byte::ctx::Endian> for {ty}<> {{
            fn try_read(bytes: &'_ [u8], ctx: ::byte::ctx::Endian) -> ::byte::Result<(Self, usize)> {{
                use ::byte::BytesExt;
                let offset = &mut 0;
                let discriminant = bytes.read_with::<{repr}>(offset, byte::LE)?;
                {matched}
            }}
        }}
        impl<> ::byte::TryRead<'_, {repr}> for {ty}<> {{
            fn try_read(bytes: &'_ [u8], discriminant: {repr}) -> ::byte::Result<(Self, usize)> {{
                use ::byte::BytesExt;
                let offset = &mut 0;
                let ctx = byte::LE;
                {matched}
            }}
        }}"
    )
}

fn enum_write_impl(ty: &str, arms: &str) -> String {
    format!(
        "impl<> ::byte::TryWrite<::byte::ctx::Endian> for {ty}<> {{
            fn try_write(self, bytes: &mut [u8], ctx: ::byte::ctx::Endian) -> ::byte::Result<usize> {{
                use ::byte::BytesExt;
                let offset = &mut 0;
                match self {{ {arms} }}
                Ok(*offset)
            }}
        }}"
    )
}

#[test]
fn test_simple_struct() {
    let item = || strct("Test", FieldsSyntax::Unnamed(vec![unnamed(ty("u16"))]));
    assert_code(
        &read(item()),
        &read_impl("Test", "let field_0 = bytes.read_with::<u16>(offset, ctx)?;", "Self(field_0,)"),
    );
    assert_code(&write(item()), &write_impl("Test", "bytes.write_with(offset, self.0, ctx)?;"));
}

#[test]
fn test_struct() {
    let item = || {
        strct("Test", FieldsSyntax::Named(vec![named("a", ty("u8"), vec![]), named("b", ty("i16"), vec![])]))
    };
    assert_code(
        &read(item()),
        &read_impl(
            "Test",
            "let a = bytes.read_with::<u8>(offset, ctx)?; let b = bytes.read_with::<i16>(offset, ctx)?;",
            "Self { a, b, }",
        ),
    );
    assert_code(
        &write(item()),
        &write_impl(
            "Test",
            "bytes.write_with(offset, self.a, ctx)?; bytes.write_with(offset, self.b, ctx)?;",
        ),
    );
}

fn option_of(inner: TypeSyntax, inner_text: &str) -> TypeSyntax {
    generic(&[], "Option", vec![type_arg(inner)], inner_text)
}

fn flag_and_option(inner: TypeSyntax, inner_text: &str) -> ItemSyntax {
    strct(
        "Test",
        FieldsSyntax::Named(vec![
            named("flag", ty("bool"), vec![byte_attr(vec![arg("ctx", "()")])]),
            named("option", option_of(inner, inner_text), vec![byte_attr(vec![arg("parse_if", "flag == true")])]),
        ]),
    )
}

#[test]
fn test_simple_option() {
    assert_code(
        &read(flag_and_option(ty("u8"), "u8")),
        &read_impl(
            "Test",
            "let flag = bytes.read_with::<bool>(offset, ())?;
             let option = if flag == true { Some(bytes.read_with::<u8>(offset, ctx)?) } else { None };",
            "Self { flag, option, }",
        ),
    );
    assert_code(
        &write(flag_and_option(ty("u8"), "u8")),
        &write_impl(
            "Test",
            "bytes.write_with(offset, self.flag, ())?;
             if let Some(ref value) = self.option { bytes.write_with(offset, *value, ctx)?; }",
        ),
    );
}

#[test]
fn test_complex_option() {
    assert_code(
        &read(flag_and_option(ty("Inner"), "Inner")),
        &read_impl(
            "Test",
            "let flag = bytes.read_with::<bool>(offset, ())?;
             let option = if flag == true { Some(bytes.read_with::<Inner>(offset, ctx)?) } else { None };",
            "Self { flag, option, }",
        ),
    );
    assert_code(
        &write(flag_and_option(ty("Inner"), "Inner")),
        &write_impl(
            "Test",
            "bytes.write_with(offset, self.flag, ())?;
             if let Some(ref value) = self.option { bytes.write_with(offset, value, ctx)?; }",
        ),
    );
}

#[test]
fn test_array() {
    let item = || {
        strct(
            "Test",
            FieldsSyntax::Unnamed(vec![unnamed(TypeSyntax::Array {
                elem: Box::new(ty("i16")),
                len: "2".to_string(),
                tokens: "[i16 ; 2]".to_string(),
            })]),
        )
    };
    assert_code(
        &read(item()),
        &read_impl(
            "Test",
            "let mut field_0 = [i16::default(); 2];
             for i in 0..2 { field_0[i] = bytes.read_with::<i16>(offset, ctx)?; }",
            "Self(field_0,)",
        ),
    );
    assert_code(&write(item()), &write_impl("Test", "for i in 0..2 { bytes.write_with(offset, self . 0[i], ctx)?; }"));
}

#[test]
fn test_tuple() {
    let item = || {
        strct(
            "Test",
            FieldsSyntax::Unnamed(vec![unnamed(TypeSyntax::Tuple {
                elems: vec![ty("u8"), ty("i16")],
                tokens: "(u8 , i16)".to_string(),
            })]),
        )
    };
    assert_code(
        &read(item()),
        &read_impl(
            "Test",
            "let field_0 = (bytes.read_with::<u8>(offset, ctx)?, bytes.read_with::<i16>(offset, ctx)?,);",
            "Self(field_0,)",
        ),
    );
    assert_code(
        &write(item()),
        &write_impl(
            "Test",
            "bytes.write_with(offset, self . 0 . 0, ctx)?; bytes.write_with(offset, self . 0 . 1, ctx)?;",
        ),
    );
}

#[test]
fn test_nested() {
    let inner = || strct("Inner", FieldsSyntax::Named(vec![named("a", ty("u8"), vec![])]));
    let outer = || {
        strct("Outer", FieldsSyntax::Named(vec![named("b", ty("u8"), vec![]), named("c", ty("Inner"), vec![])]))
    };
    assert_code(
        &read(inner()),
        &read_impl("Inner", "let a = bytes.read_with::<u8>(offset, ctx)?;", "Self { a, }"),
    );
    assert_code(
        &read(outer()),
        &read_impl(
            "Outer",
            "let b = bytes.read_with::<u8>(offset, ctx)?; let c = bytes.read_with::<Inner>(offset, ctx)?;",
            "Self { b, c, }",
        ),
    );
    assert_code(
        &write(outer()),
        &write_impl("Outer", "bytes.write_with(offset, self.b, ctx)?; bytes.write_with(offset, &self.c, ctx)?;"),
    );
}

#[test]
fn test_enum() {
    let item = || {
        enm(
            "Test",
            vec![repr_attr("u8")],
            vec![
                variant("A", "0x14", FieldsSyntax::Unit),
                variant("B", "0x18", FieldsSyntax::Unit),
                variant("C", "0x20", FieldsSyntax::Unnamed(vec![unnamed(ty("u8"))])),
            ],
        )
    };
    assert_code(
        &read(item()),
        &enum_read_impls(
            "Test",
            "u8",
            "0x14 => { Self::A }, 0x18 => { Self::B },
             0x20 => { let field_0 = bytes.read_with::<u8>(offset, ctx)?; Self::C(field_0) },",
        ),
    );
    assert_code(
        &write(item()),
        &enum_write_impl(
            "Test",
            "Self::A => { bytes.write_with(offset, 0x14 as u8, byte::LE)?; }
             Self::B => { bytes.write_with(offset, 0x18 as u8, byte::LE)?; }
             Self::C(field_0) => { bytes.write_with(offset, 0x20 as u8, byte::LE)?; bytes.write_with(offset, field_0, ctx)?; }",
        ),
    );
}

fn heapless_vec(item: TypeSyntax, item_text: &str) -> TypeSyntax {
    generic(&["heapless"], "Vec", vec![type_arg(item), const_arg("32")], &format!("{} , 32", item_text))
}

fn len_u8() -> Vec<AttributeSyntax> {
    vec![byte_attr(vec![arg("len", "u8")])]
}

const FIT_ERROR: &str = "map_err(|_| byte::Error::BadInput { err: \"cannot fit items into Vec, Vec too small\" })?;";

#[test]
fn test_vec() {
    let item = || {
        strct(
            "Test",
            FieldsSyntax::Named(vec![named("v", heapless_vec(ty("u16"), "u16"), len_u8()), named("a", ty("u8"), vec![])]),
        )
    };
    assert_code(
        &read(item()),
        &read_impl(
            "Test",
            &format!(
                "let size = bytes.read_with::<u8>(offset, ctx)?;
                 let mut v = heapless::Vec::<u16, 32>::new();
                 for _ in 0..size {{ v.push(bytes.read_with(offset, ctx)?).{FIT_ERROR} }}
                 let a = bytes.read_with::<u8>(offset, ctx)?;"
            ),
            "Self { v, a, }",
        ),
    );
    assert_code(
        &write(item()),
        &write_impl(
            "Test",
            "bytes.write_with::<u8>(offset, self.v.len() as u8, ctx)?;
             for item in self.v.iter() { bytes.write_with(offset, *item, ctx)?; }
             bytes.write_with(offset, self.a, ctx)?;",
        ),
    );

    let item2 = || {
        strct(
            "Test2",
            FieldsSyntax::Named(vec![named("v", generic(&[], "Vec", vec![type_arg(ty("u16"))], "u16"), len_u8())]),
        )
    };
    assert_code(
        &read(item2()),
        &read_impl(
            "Test2",
            "let size = bytes.read_with::<u8>(offset, ctx)?;
             let mut v = Vec::<u16>::with_capacity(size as usize);
             for _ in 0..size { v.push(bytes.read_with(offset, ctx)?); }",
            "Self { v, }",
        ),
    );
    assert_code(
        &write(item2()),
        &write_impl(
            "Test2",
            "bytes.write_with::<u8>(offset, self.v.len() as u8, ctx)?;
             for item in self.v.iter() { bytes.write_with(offset, *item, ctx)?; }",
        ),
    );
}

#[test]
fn test_vec_no_primitive() {
    let item = || {
        strct(
            "Test",
            FieldsSyntax::Named(vec![
                named("v", heapless_vec(ty("Inner"), "Inner"), len_u8()),
                named("a", ty("u8"), vec![]),
            ]),
        )
    };
    assert_code(
        &write(item()),
        &write_impl(
            "Test",
            "bytes.write_with::<u8>(offset, self.v.len() as u8, ctx)?;
             for item in self.v.iter() { bytes.write_with(offset, item, ctx)?; }
             bytes.write_with(offset, self.a, ctx)?;",
        ),
    );
    assert_code(
        &read(item()),
        &read_impl(
            "Test",
            &format!(
                "let size = bytes.read_with::<u8>(offset, ctx)?;
                 let mut v = heapless::Vec::<Inner, 32>::new();
                 for _ in 0..size {{ v.push(bytes.read_with(offset, ctx)?).{FIT_ERROR} }}
                 let a = bytes.read_with::<u8>(offset, ctx)?;"
            ),
            "Self { v, a, }",
        ),
    );
}

#[test]
fn test_enum_vec() {
    let item = || {
        enm(
            "Test",
            vec![repr_attr("u8")],
            vec![
                variant(
                    "Item",
                    "0x05",
                    FieldsSyntax::Unnamed(vec![FieldSyntax {
                        attrs: len_u8(),
                        ident: String::new(),
                        ty: heapless_vec(ty("u8"), "u8"),
                    }]),
                ),
                variant("Other", "0x4", FieldsSyntax::Unit),
            ],
        )
    };
    assert_code(
        &read(item()),
        &enum_read_impls(
            "Test",
            "u8",
            &format!(
                "0x05 => {{
                    let size = bytes.read_with::<u8>(offset, ctx)?;
                    let mut field_0 = heapless::Vec::<u8, 32>::new();
                    for _ in 0..size {{ field_0.push(bytes.read_with(offset, ctx)?).{FIT_ERROR} }}
                    Self::Item(field_0)
                 }},
                 0x4 => {{ Self::Other }},"
            ),
        ),
    );
    assert_code(
        &write(item()),
        &enum_write_impl(
            "Test",
            "Self::Item(field_0) => {
                bytes.write_with(offset, 0x05 as u8, byte::LE)?;
                bytes.write_with::<u8>(offset, field_0.len() as u8, ctx)?;
                for item in field_0.iter() { bytes.write_with(offset, *item, ctx)?; }
             }
             Self::Other => { bytes.write_with(offset, 0x4 as u8, byte::LE)?; }",
        ),
    );
}

#[test]
fn test_empty_vec() {
    let item = || {
        strct(
            "Test",
            FieldsSyntax::Named(vec![named("v", heapless_vec(ty("u8"), "u8"), len_u8()), named("a", ty("u8"), vec![])]),
        )
    };
    assert_code(
        &write(item()),
        &write_impl(
            "Test",
            "bytes.write_with::<u8>(offset, self.v.len() as u8, ctx)?;
             for item in self.v.iter() { bytes.write_with(offset, *item, ctx)?; }
             bytes.write_with(offset, self.a, ctx)?;",
        ),
    );
}

#[test]
fn test_vec_no_len() {
    let item = || {
        strct(
            "Test",
            FieldsSyntax::Named(vec![named("a", ty("u8"), vec![]), named("v", heapless_vec(ty("u8"), "u8"), vec![])]),
        )
    };
    assert_code(
        &read(item()),
        &read_impl(
            "Test",
            &format!(
                "let a = bytes.read_with::<u8>(offset, ctx)?;
                 let mut v = heapless::Vec::<u8, 32>::new();
                 while bytes[*offset..].len() > 0 {{ v.push(bytes.read_with(offset, ctx)?).{FIT_ERROR} }}"
            ),
            "Self { a, v, }",
        ),
    );
    assert_code(
        &write(item()),
        &write_impl(
            "Test",
            "bytes.write_with(offset, self.a, ctx)?; for item in self.v.iter() { bytes.write_with(offset, *item, ctx)?; }",
        ),
    );
}

fn ignore_struct(extra: Vec<NameValueSyntax>) -> ItemSyntax {
    let mut args = vec![arg("ignore", "true")];
    args.extend(extra);
    strct(
        "Test",
        FieldsSyntax::Named(vec![
            named("a", ty("u8"), vec![]),
            named("b", ty("u8"), vec![byte_attr(args)]),
            named("c", ty("u8"), vec![]),
        ]),
    )
}

#[test]
fn test_ignore() {
    assert_code(
        &write(ignore_struct(vec![])),
        &write_impl("Test", "bytes.write_with(offset, self.a, ctx)?; bytes.write_with(offset, self.c, ctx)?;"),
    );
    assert_code(
        &read(ignore_struct(vec![])),
        &read_impl(
            "Test",
            "let a = bytes.read_with::<u8>(offset, ctx)?; let b = Default::default(); let c = bytes.read_with::<u8>(offset, ctx)?;",
            "Self { a, b, c, }",
        ),
    );
}

#[test]
fn test_ignore_default() {
    assert_code(
        &write(ignore_struct(vec![arg("default", "42")])),
        &write_impl("Test", "bytes.write_with(offset, self.a, ctx)?; bytes.write_with(offset, self.c, ctx)?;"),
    );
    assert_code(
        &read(ignore_struct(vec![arg("default", "42")])),
        &read_impl(
            "Test",
            "let a = bytes.read_with::<u8>(offset, ctx)?; let b = 42; let c = bytes.read_with::<u8>(offset, ctx)?;",
            "Self { a, b, c, }",
        ),
    );
}

#[test]
fn test_no_tag() {
    let one = |name: &str, d: &str| variant(name, d, FieldsSyntax::Unnamed(vec![unnamed(ty("u8"))]));
    let item = enm(
        "Test",
        vec![byte_attr(vec![arg("no_tag", "true")]), repr_attr("u16")],
        vec![one("A", "1"), one("B", "2"), one("C", "3")],
    );
    assert_code(
        &write(item),
        &enum_write_impl(
            "Test",
            "Self::A(field_0) => { bytes.write_with(offset, field_0, ctx)?; }
             Self::B(field_0) => { bytes.write_with(offset, field_0, ctx)?; }
             Self::C(field_0) => { bytes.write_with(offset, field_0, ctx)?; }",
        ),
    );
}

#[test]
fn test_option_no_parse_if() {
    let item = || {
        strct(
            "Test",
            FieldsSyntax::Named(vec![
                named("a", ty("u8"), vec![]),
                named("o", option_of(ty("u16"), "u16"), vec![]),
                named("c", ty("u8"), vec![]),
            ]),
        )
    };
    assert_code(
        &read(item()),
        &read_impl(
            "Test",
            "let a = bytes.read_with::<u8>(offset, ctx)?;
             let is_some = bytes.read_with::<bool>(offset, ())?;
             let o = if is_some { Some(bytes.read_with::<u16>(offset, ctx)?) } else { None };
             let c = bytes.read_with::<u8>(offset, ctx)?;",
            "Self { a, o, c, }",
        ),
    );
    assert_code(
        &write(item()),
        &write_impl(
            "Test",
            "bytes.write_with(offset, self.a, ctx)?;
             if let Some(ref value) = self.o {
                 bytes.write_with(offset, true, ())?;
                 bytes.write_with(offset, *value, ctx)?;
             } else {
                 bytes.write_with(offset, false, ())?;
             }
             bytes.write_with(offset, self.c, ctx)?;",
        ),
    );
}
