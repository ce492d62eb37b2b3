//! How attributes become options, which inputs are refused and with what
//! diagnostic, and the small judgements on paths and types.

use byte_derive::config::FieldConfig;
use byte_derive::derive::{derive_supported, try_read_derive, try_write_derive};
use byte_derive::field::{Field, FieldDef};
use byte_derive::item::ObjectDef;
use byte_derive::paths::{get_path_name, is_ident, path_ends_with, type_generics_to_tokens};
use byte_derive::syntax::{
    AttributeSyntax, DeriveError, EnumSyntax, FieldSyntax, FieldsSyntax, GenericArgumentSyntax,
    ItemSyntax, MetaSyntax, NameValueSyntax, OtherTypeKind, PathArgumentsSyntax, PathSegmentSyntax,
    PathSyntax, StructSyntax, TypeSyntax, VariantSyntax,
};
use byte_derive::text::{push_decimal, split_on_double_colon, text_eq_chars};
use byte_derive::utils::{bool_expr, is_primitive};

fn segment(name: &str) -> PathSegmentSyntax {
    PathSegmentSyntax { ident: name.to_string(), arguments: PathArgumentsSyntax::NoArguments }
}

fn path(names: &[&str]) -> PathSyntax {
    PathSyntax { leading_colon: false, segments: names.iter().map(|n| segment(n)).collect() }
}

fn ty(name: &str) -> TypeSyntax {
    TypeSyntax::Path { path: path(&[name]), tokens: name.to_string() }
}

fn arg_at(key: &str, value: &str, site: usize) -> NameValueSyntax {
    let value_bool = match value {
        "true" => Some(true),
        "false" => Some(false),
        _ => None,
    };
    NameValueSyntax { path: path(&[key]), value: value.to_string(), value_bool, site, value_site: site + 1000 }
}

fn arg(key: &str, value: &str) -> NameValueSyntax {
    arg_at(key, value, 0)
}

fn list_attr(name: &str, args: Result<Vec<NameValueSyntax>, DeriveError>, site: usize) -> AttributeSyntax {
    AttributeSyntax {
        path: path(&[name]),
        meta: MetaSyntax::List {
            name_values: args,
            as_type: Err(DeriveError { message: "expected type".to_string(), site: 99 }),
        },
        site,
    }
}

fn byte_attr(args: Vec<NameValueSyntax>) -> AttributeSyntax {
    list_attr("byte", Ok(args), 5)
}

fn repr_attr(repr: &str) -> AttributeSyntax {
    AttributeSyntax {
        path: path(&["repr"]),
        meta: MetaSyntax::List {
            name_values: Err(DeriveError { message: "expected `=`".to_string(), site: 98 }),
            as_type: Ok(repr.to_string()),
        },
        site: 6,
    }
}

fn field(name: &str, t: TypeSyntax, attrs: Vec<AttributeSyntax>) -> FieldSyntax {
    FieldSyntax { attrs, ident: name.to_string(), ty: t }
}

fn strct(attrs: Vec<AttributeSyntax>, fields: Vec<FieldSyntax>) -> ItemSyntax {
    ItemSyntax::Struct(StructSyntax {
        attrs,
        ident: "Test".to_string(),
        generics: String::new(),
        fields: FieldsSyntax::Named(fields),
    })
}

fn enm(attrs: Vec<AttributeSyntax>, variants: Vec<VariantSyntax>) -> ItemSyntax {
    ItemSyntax::Enum(EnumSyntax { attrs, ident: "Test".to_string(), generics: String::new(), variants, site: 77 })
}

fn unit_variant(name: &str, discriminant: Option<&str>) -> VariantSyntax {
    VariantSyntax { ident: name.to_string(), discriminant: discriminant.map(|d| d.to_string()), fields: FieldsSyntax::Unit }
}

fn error_of(r: Result<String, DeriveError>) -> (String, usize) {
    let e = r.expect_err("a diagnostic");
    (e.message, e.site)
}

#[test]
fn field_options_are_read_in_order_and_the_last_wins() {
    let attrs = vec![byte_attr(vec![arg("ctx", "A"), arg("len", "u16"), arg("ctx", "B"), arg("ignore", "true")])];
    let cfg = FieldConfig::from_attrs(&attrs).expect("options");
    assert_eq!(cfg.ctx.as_deref(), Some("B"));
    assert_eq!(cfg.len.as_deref(), Some("u16"));
    assert!(cfg.ignore);
    assert_eq!(cfg.parse_if, None);
    assert_eq!(cfg.default, None);
}

#[test]
fn every_field_option_key_is_understood() {
    let attrs = vec![byte_attr(vec![
        arg("ctx", "c"),
        arg("ctx_write", "w"),
        arg("parse_if", "flag"),
        arg("len", "u8"),
        arg("ignore", "false"),
        arg("default", "7"),
    ])];
    let cfg = FieldConfig::from_attrs(&attrs).expect("options");
    assert_eq!(cfg.ctx.as_deref(), Some("c"));
    assert_eq!(cfg.ctx_write.as_deref(), Some("w"));
    assert_eq!(cfg.parse_if.as_deref(), Some("flag"));
    assert_eq!(cfg.len.as_deref(), Some("u8"));
    assert!(!cfg.ignore);
    assert_eq!(cfg.default.as_deref(), Some("7"));
}

#[test]
fn the_first_unknown_field_key_is_the_error() {
    let attrs = vec![byte_attr(vec![arg_at("ctx", "A", 1), arg_at("size", "4", 2), arg_at("bogus", "1", 3)])];
    let e = FieldConfig::from_attrs(&attrs).expect_err("a diagnostic");
    assert_eq!(e.message, "invalid attribute");
    assert_eq!(e.site, 2);
}

#[test]
fn ignore_needs_a_bool_literal() {
    let attrs = vec![byte_attr(vec![arg_at("ignore", "yes", 4)])];
    let e = FieldConfig::from_attrs(&attrs).expect_err("a diagnostic");
    assert_eq!(e.message, "invalid value for bool expr");
    assert_eq!(e.site, 1004);
    assert_eq!(bool_expr(&arg("ignore", "true")).expect("a bool"), true);
    assert_eq!(bool_expr(&arg("ignore", "false")).expect("a bool"), false);
}

#[test]
fn only_the_first_byte_attribute_counts() {
    let attrs = vec![
        list_attr("doc", Err(DeriveError { message: "not name values".to_string(), site: 1 }), 1),
        byte_attr(vec![arg("ctx", "First")]),
        byte_attr(vec![arg("nonsense", "1")]),
    ];
    let cfg = FieldConfig::from_attrs(&attrs).expect("options");
    assert_eq!(cfg.ctx.as_deref(), Some("First"));
}

#[test]
fn no_byte_attribute_gives_the_defaults() {
    let attrs = vec![list_attr("serde", Ok(vec![arg("rename", "x")]), 1)];
    let cfg = FieldConfig::from_attrs(&attrs).expect("options");
    assert_eq!(cfg.ctx, None);
    assert!(!cfg.ignore);
    let none: Vec<AttributeSyntax> = vec![];
    assert!(FieldConfig::from_attrs(&none).is_ok());
}

#[test]
fn an_unreadable_byte_attribute_is_its_parse_error() {
    let attrs = vec![list_attr("byte", Err(DeriveError { message: "expected `=`".to_string(), site: 42 }), 3)];
    let e = FieldConfig::from_attrs(&attrs).expect_err("a diagnostic");
    assert_eq!((e.message.as_str(), e.site), ("expected `=`", 42));
}

#[test]
fn bool_fields_default_to_the_unit_context() {
    let cfg = FieldConfig::from_attrs(&vec![]).expect("options");
    assert_eq!(cfg.get_ctx(&ty("bool")), "()");
    assert_eq!(cfg.get_ctx(&ty("u8")), "ctx");
    let given = FieldConfig::from_attrs(&vec![byte_attr(vec![arg("ctx", "Endian::Big")])]).expect("options");
    assert_eq!(given.get_ctx(&ty("bool")), "Endian::Big");
}

#[test]
fn struct_attributes_accept_only_ctx() {
    let good = strct(vec![byte_attr(vec![arg("ctx", "MyCtx")])], vec![field("a", ty("u8"), vec![])]);
    let text = try_read_derive(good).expect("impls");
    assert!(text.contains("::byte::TryRead<'_, MyCtx >"));
    let bad = strct(vec![byte_attr(vec![arg_at("no_tag", "true", 12)])], vec![field("a", ty("u8"), vec![])]);
    assert_eq!(error_of(try_read_derive(bad)), ("invalid attribute".to_string(), 12));
}

#[test]
fn every_struct_list_attribute_is_read_as_options() {
    let repr_c = AttributeSyntax {
        path: path(&["repr"]),
        meta: MetaSyntax::List {
            name_values: Err(DeriveError { message: "expected `=`".to_string(), site: 31 }),
            as_type: Ok("C".to_string()),
        },
        site: 30,
    };
    let item = strct(vec![repr_c], vec![field("a", ty("u8"), vec![])]);
    assert_eq!(error_of(try_write_derive(item)), ("expected `=`".to_string(), 31));
}

#[test]
fn an_enum_needs_a_repr_list() {
    let missing = enm(vec![], vec![unit_variant("A", Some("1"))]);
    assert_eq!(error_of(try_read_derive(missing)), ("repr attribute not found".to_string(), 77));
    let path_only = enm(
        vec![AttributeSyntax { path: path(&["repr"]), meta: MetaSyntax::Path, site: 55 }],
        vec![unit_variant("A", Some("1"))],
    );
    assert_eq!(error_of(try_read_derive(path_only)), ("repr attribute must be a list".to_string(), 55));
}

#[test]
fn enum_options_no_tag_and_errors() {
    let bad_key = enm(vec![byte_attr(vec![arg_at("len", "u8", 21)]), repr_attr("u8")], vec![unit_variant("A", Some("1"))]);
    assert_eq!(error_of(try_write_derive(bad_key)), ("invalid attribute".to_string(), 21));
    let bad_bool = enm(vec![byte_attr(vec![arg_at("no_tag", "1", 22)]), repr_attr("u8")], vec![unit_variant("A", Some("1"))]);
    assert_eq!(error_of(try_write_derive(bad_bool)), ("invalid value for bool expr".to_string(), 1022));
    let ctx = enm(vec![byte_attr(vec![arg("ctx", "MyCtx")]), repr_attr("u8")], vec![unit_variant("A", Some("1"))]);
    assert!(try_write_derive(ctx).expect("impls").contains("::byte::TryWrite< MyCtx >"));
}

#[test]
fn a_union_is_refused() {
    let item = ItemSyntax::Other { site: 8 };
    assert!(derive_supported(&item, true));
    assert_eq!(error_of(try_read_derive(item)), ("not enum or struct".to_string(), 8));
}

#[test]
fn panicking_inputs_are_recognised() {
    // A field attribute that is not understood makes the derive panic.
    let bad_field = strct(vec![], vec![field("a", ty("u8"), vec![byte_attr(vec![arg("bogus", "1")])])]);
    assert!(!derive_supported(&bad_field, true));
    assert!(!derive_supported(&bad_field, false));
    // A variant without a discriminant panics once the tag type is known ...
    let no_disc = enm(vec![repr_attr("u8")], vec![unit_variant("A", None)]);
    assert!(!derive_supported(&no_disc, true));
    // ... and not when the item is refused before.
    let refused = enm(vec![], vec![unit_variant("A", None)]);
    assert!(derive_supported(&refused, true));
    // References and slices have no generated code.
    let reference = TypeSyntax::Other { kind: OtherTypeKind::Reference, tokens: "& u8".to_string() };
    let item = strct(vec![], vec![field("a", reference, vec![])]);
    assert!(!derive_supported(&item, true));
    assert!(!derive_supported(&item, false));
    // An ignored field of any type is fine.
    let reference = TypeSyntax::Other { kind: OtherTypeKind::Slice, tokens: "[u8]".to_string() };
    let item = strct(vec![], vec![field("a", reference, vec![byte_attr(vec![arg("ignore", "true")])])]);
    assert!(derive_supported(&item, true));
    assert!(derive_supported(&item, false));
    // An unsupported type does not matter when the item is refused first.
    let reference = TypeSyntax::Other { kind: OtherTypeKind::Ptr, tokens: "* const u8".to_string() };
    let item = strct(vec![byte_attr(vec![arg("bad", "1")])], vec![field("a", reference, vec![])]);
    assert!(derive_supported(&item, true));
}

#[test]
fn an_option_without_a_type_argument_can_be_read_and_not_written() {
    let item = || strct(vec![], vec![field("o", TypeSyntax::Path { path: path(&["Option"]), tokens: "Option".to_string() }, vec![])]);
    assert!(derive_supported(&item(), true));
    assert!(!derive_supported(&item(), false));
    let vec_bare = strct(vec![], vec![field("v", TypeSyntax::Path { path: path(&["Vec"]), tokens: "Vec".to_string() }, vec![])]);
    assert!(!derive_supported(&vec_bare, true));
}

#[test]
fn parse_keeps_the_declared_fields() {
    let item = strct(vec![], vec![field("a", ty("u8"), vec![]), field("b", ty("u16"), vec![byte_attr(vec![arg("ctx", "X")])])]);
    match ObjectDef::parse(item).expect("a struct") {
        ObjectDef::Struct(def) => {
            let fields = def.fields.as_ref().expect("fields").get_fields();
            assert_eq!(fields.len(), 2);
            assert!(matches!(&fields[0].field_def, FieldDef::Named(n) if n == "a"));
            assert_eq!(fields[1].config.ctx.as_deref(), Some("X"));
            assert_eq!(fields[1].get_self_call(), "self . b");
        }
        ObjectDef::Enum(_) => panic!("a struct was parsed as an enum"),
    }
}

#[test]
fn positional_fields_are_named_by_their_position() {
    let f = |idx: usize| Field {
        config: FieldConfig::from_attrs(&vec![]).expect("options"),
        ty: ty("u8"),
        field_def: FieldDef::Unnamed(idx),
    };
    assert_eq!(f(0).get_ident(), "field_0");
    assert_eq!(f(12).get_ident(), "field_12");
    assert_eq!(f(305).get_self_call(), "self . 305");
    assert_ne!(f(1).get_ident(), f(10).get_ident());
}

#[test]
fn decimal_text() {
    for (n, text) in [(0usize, "0"), (7, "7"), (10, "10"), (1234567890, "1234567890")] {
        let mut s = String::from("x");
        push_decimal(&mut s, n);
        assert_eq!(s, format!("x{}", text));
    }
}

#[test]
fn splitting_at_double_colons() {
    let pieces = |s: &str| -> Vec<String> {
        split_on_double_colon(s).into_iter().map(|p| p.into_iter().collect()).collect()
    };
    assert_eq!(pieces("Vec"), vec!["Vec"]);
    assert_eq!(pieces("a::b::c"), vec!["a", "b", "c"]);
    assert_eq!(pieces("::"), vec!["", ""]);
    assert_eq!(pieces(":::a"), vec!["", ":a"]);
    assert_eq!(pieces(""), vec![""]);
    assert!(text_eq_chars("ab", &vec!['a', 'b']));
    assert!(!text_eq_chars("ab", &vec!['a']));
}

#[test]
fn path_questions() {
    let p = path(&["heapless", "Vec"]);
    assert!(path_ends_with(&p, "Vec"));
    assert!(path_ends_with(&p, "heapless::Vec"));
    assert!(!path_ends_with(&p, "std::heapless::Vec"));
    assert!(!path_ends_with(&p, "Option"));
    assert_eq!(get_path_name(&p), "");
    assert_eq!(get_path_name(&path(&["ctx"])), "ctx");
    assert!(is_ident(&path(&["byte"]), "byte"));
    assert!(!is_ident(&PathSyntax { leading_colon: true, segments: vec![segment("byte")] }, "byte"));
    let generic = PathSyntax {
        leading_colon: false,
        segments: vec![PathSegmentSyntax {
            ident: "Option".to_string(),
            arguments: PathArgumentsSyntax::AngleBracketed {
                args: vec![GenericArgumentSyntax::Type(ty("u8"))],
                args_tokens: "u8".to_string(),
                tokens: "< u8 >".to_string(),
            },
        }],
    };
    let mut out = String::from("<");
    type_generics_to_tokens(&generic, &mut out);
    assert_eq!(out, "<u8");
    let mut out = String::new();
    type_generics_to_tokens(&path(&["u8"]), &mut out);
    assert_eq!(out, "");
}

#[test]
fn primitive_types() {
    for name in ["bool", "char", "str", "u8", "u128", "i64", "f32", "f128", "usize", "isize"] {
        assert!(is_primitive(&ty(name)), "{}", name);
    }
    assert!(!is_primitive(&ty("Inner")));
    assert!(!is_primitive(&TypeSyntax::Path { path: path(&["std", "u8"]), tokens: "std::u8".to_string() }));
    let generic_u8 = TypeSyntax::Path {
        path: PathSyntax {
            leading_colon: false,
            segments: vec![PathSegmentSyntax {
                ident: "u8".to_string(),
                arguments: PathArgumentsSyntax::Parenthesized { tokens: "()".to_string() },
            }],
        },
        tokens: "u8()".to_string(),
    };
    assert!(!is_primitive(&generic_u8));
    assert!(!is_primitive(&TypeSyntax::Tuple { elems: vec![], tokens: "()".to_string() }));
}
