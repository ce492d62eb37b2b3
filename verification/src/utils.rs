//! Small judgements on attribute values and types.
use vstd::prelude::*;
use vstd::string::*;
use crate::paths::path_is_ident;
use crate::syntax::{DeriveError, NameValueSyntax, PathArgumentsSyntax, TypeSyntax, outcome, fail};
use crate::text::text_is;

verus! {

/// The value of an attribute argument that must be a `bool` literal.
pub open spec fn bool_value(arg: NameValueSyntax) -> Result<bool, crate::syntax::ErrorView> {
    match arg.value_bool {
        Some(b) => Ok(b),
        None => fail("invalid value for bool expr"@, arg.value_site),
    }
}

/// Reads the value of `arg` as a `bool` literal.
pub fn bool_expr(arg: &NameValueSyntax) -> (r: Result<bool, DeriveError>)
    ensures
        outcome(r) == bool_value(*arg),
{
    match arg.value_bool {
        Some(b) => Ok(b),
        None => Err(
            DeriveError { message: "invalid value for bool expr".to_owned(), site: arg.value_site },
        ),
    }
}

/// The names of the primitive types: these are written by value, all others
/// by reference.
pub open spec fn is_primitive_name(s: Seq<char>) -> bool {
    ||| s == "bool"@
    ||| s == "char"@
    ||| s == "str"@
    ||| s == "u8"@
    ||| s == "u16"@
    ||| s == "u32"@
    ||| s == "u64"@
    ||| s == "u128"@
    ||| s == "i8"@
    ||| s == "i16"@
    ||| s == "i32"@
    ||| s == "i64"@
    ||| s == "i128"@
    ||| s == "f32"@
    ||| s == "f64"@
    ||| s == "f128"@
    ||| s == "usize"@
    ||| s == "isize"@
}

/// Whether `ty` is a primitive type named by a single plain identifier.
pub open spec fn type_is_primitive(ty: TypeSyntax) -> bool {
    match ty {
        TypeSyntax::Path { path, .. } => exists|name: Seq<char>|
            is_primitive_name(name) && #[trigger] path_is_ident(path, name),
        _ => false,
    }
}

fn is_primitive_text(s: &String) -> (b: bool)
    ensures
        b == is_primitive_name(s@),
{
    text_is(s, "bool") || text_is(s, "char") || text_is(s, "str") || text_is(s, "u8")
        || text_is(s, "u16") || text_is(s, "u32") || text_is(s, "u64") || text_is(s, "u128")
        || text_is(s, "i8") || text_is(s, "i16") || text_is(s, "i32") || text_is(s, "i64")
        || text_is(s, "i128") || text_is(s, "f32") || text_is(s, "f64") || text_is(s, "f128")
        || text_is(s, "usize") || text_is(s, "isize")
}

/// Whether `ty` is a primitive type named by a single plain identifier.
pub fn is_primitive(ty: &TypeSyntax) -> (b: bool)
    ensures
        b == type_is_primitive(*ty),
{
    match ty {
        TypeSyntax::Path { path, .. } => {
            if path.leading_colon || path.segments.len() != 1 {
                return false;
            }
            let seg = &path.segments[0];
            match seg.arguments {
                PathArgumentsSyntax::NoArguments => {
                    let b = is_primitive_text(&seg.ident);
                    proof {
                        if b {
                            assert(path_is_ident(*path, seg.ident@));
                        }
                    }
                    b
                },
                _ => false,
            }
        },
        _ => false,
    }
}

} // verus!
