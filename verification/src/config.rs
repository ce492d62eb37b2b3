//! The `#[byte(..)]` options of a field.
use vstd::prelude::*;
use vstd::string::*;
use crate::paths::{get_path_name, path_is_ident, path_name, is_ident};
use crate::syntax::{
    AttributeSyntax, DeriveError, ErrorView, MetaSyntax, NameValueSyntax, TypeSyntax,
    fail, outcome,
};
use crate::text::text_is;
use crate::utils::{bool_expr, bool_value};

verus! {

/// What the `#[byte(..)]` attribute of a field asks for. Every expression is
/// kept as source text.
#[derive(Debug)]
pub struct FieldConfig {
    /// `ctx = ..`: the context to read and write the field with.
    pub ctx: Option<String>,
    /// `ctx_write = ..`: accepted, and not used by the generated code.
    pub ctx_write: Option<String>,
    /// `parse_if = ..`: an `Option` field is present exactly when this holds.
    pub parse_if: Option<String>,
    /// `len = ..`: the type of the length prefix of a vector field.
    pub len: Option<String>,
    /// `ignore = true`: the field is neither read nor written.
    pub ignore: bool,
    /// `default = ..`: the value an ignored field is read as.
    pub default: Option<String>,
}

/// The options of a field without a `#[byte(..)]` attribute.
pub open spec fn default_config() -> FieldConfig {
    FieldConfig { ctx: None, ctx_write: None, parse_if: None, len: None, ignore: false, default: None }
}

impl Default for FieldConfig {
    fn default() -> (cfg: FieldConfig)
        ensures
            cfg == default_config(),
    {
        FieldConfig { ctx: None, ctx_write: None, parse_if: None, len: None, ignore: false, default: None }
    }
}

/// Whether `attrs[i]` is the first attribute whose path is the identifier `name`.
pub open spec fn is_first_attr(attrs: Seq<AttributeSyntax>, name: Seq<char>, i: int) -> bool {
    &&& 0 <= i < attrs.len()
    &&& path_is_ident(attrs[i].path, name)
    &&& forall|j: int| 0 <= j < i ==> !path_is_ident(#[trigger] attrs[j].path, name)
}

/// The position of the first attribute whose path is the identifier `name`.
pub open spec fn first_attr_named(attrs: Seq<AttributeSyntax>, name: Seq<char>) -> Option<int> {
    if exists|i: int| is_first_attr(attrs, name, i) {
        Some(choose|i: int| is_first_attr(attrs, name, i))
    } else {
        None
    }
}

/// There is at most one first attribute of a name.
pub proof fn lemma_first_attr_unique(attrs: Seq<AttributeSyntax>, name: Seq<char>, i: int, k: int)
    requires
        is_first_attr(attrs, name, i),
        is_first_attr(attrs, name, k),
    ensures
        i == k,
{
    if i < k {
        assert(!path_is_ident(attrs[i].path, name));
    } else if k < i {
        assert(!path_is_ident(attrs[k].path, name));
    }
}

/// Finds the first attribute whose path is the identifier `name`.
pub fn find_attr(attrs: &Vec<AttributeSyntax>, name: &str) -> (r: Option<usize>)
    ensures
        match r {
            Some(i) => first_attr_named(attrs@, name@) == Some(i as int),
            None => first_attr_named(attrs@, name@) is None,
        },
{
    let mut i: usize = 0;
    while i < attrs.len()
        invariant
            i <= attrs@.len(),
            forall|j: int| 0 <= j < i ==> !path_is_ident(#[trigger] attrs@[j].path, name@),
        decreases attrs@.len() - i,
    {
        if is_ident(&attrs[i].path, name) {
            proof {
                assert(is_first_attr(attrs@, name@, i as int));
                let k = choose|k: int| is_first_attr(attrs@, name@, k);
                lemma_first_attr_unique(attrs@, name@, i as int, k);
            }
            return Some(i);
        }
        i = i + 1;
    }
    proof {
        if exists|k: int| is_first_attr(attrs@, name@, k) {
            let k = choose|k: int| is_first_attr(attrs@, name@, k);
            assert(!path_is_ident(attrs@[k].path, name@));
        }
    }
    None
}

/// The options after one `key = value` argument of a field attribute.
pub open spec fn apply_field_arg(cfg: FieldConfig, arg: NameValueSyntax) -> Result<FieldConfig, ErrorView> {
    let key = path_name(arg.path);
    if key == "ctx"@ {
        Ok(FieldConfig { ctx: Some(arg.value), ..cfg })
    } else if key == "ctx_write"@ {
        Ok(FieldConfig { ctx_write: Some(arg.value), ..cfg })
    } else if key == "parse_if"@ {
        Ok(FieldConfig { parse_if: Some(arg.value), ..cfg })
    } else if key == "len"@ {
        Ok(FieldConfig { len: Some(arg.value), ..cfg })
    } else if key == "ignore"@ {
        match bool_value(arg) {
            Ok(b) => Ok(FieldConfig { ignore: b, ..cfg }),
            Err(e) => Err(e),
        }
    } else if key == "default"@ {
        Ok(FieldConfig { default: Some(arg.value), ..cfg })
    } else {
        fail("invalid attribute"@, arg.site)
    }
}

/// The options after the arguments `args` of a field attribute, in order; the
/// first argument that is not understood is the error.
pub open spec fn apply_field_args(cfg: FieldConfig, args: Seq<NameValueSyntax>) -> Result<FieldConfig, ErrorView>
    decreases args.len(),
{
    if args.len() == 0 {
        Ok(cfg)
    } else {
        match apply_field_arg(cfg, args[0]) {
            Ok(next) => apply_field_args(next, args.skip(1)),
            Err(e) => Err(e),
        }
    }
}

/// The options of a field with attributes `attrs`: those of its first `byte`
/// attribute when that has arguments in brackets.
pub open spec fn field_config(attrs: Seq<AttributeSyntax>) -> Result<FieldConfig, ErrorView> {
    match first_attr_named(attrs, "byte"@) {
        None => Ok(default_config()),
        Some(i) => match attrs[i].meta {
            MetaSyntax::List { name_values, .. } => match name_values {
                Ok(args) => apply_field_args(default_config(), args@),
                Err(e) => Err(e@),
            },
            _ => Ok(default_config()),
        },
    }
}

/// A copy of a diagnostic.
pub fn copy_error(e: &DeriveError) -> (r: DeriveError)
    ensures
        r == *e,
{
    DeriveError { message: e.message.clone(), site: e.site }
}

impl FieldConfig {
    /// The options of a field with attributes `attrs`.
    pub fn from_attrs(attrs: &Vec<AttributeSyntax>) -> (r: Result<Self, DeriveError>)
        ensures
            outcome(r) == field_config(attrs@),
    {
        let mut slf = Self::default();
        let Some(idx) = find_attr(attrs, "byte") else {
            return Ok(slf);
        };
        let attr = &attrs[idx];
        if let MetaSyntax::List { name_values, .. } = &attr.meta {
            let args = match name_values {
                Ok(args) => args,
                Err(e) => {
                    return Err(copy_error(e));
                },
            };
            let mut i: usize = 0;
            proof {
                assert(field_config(attrs@) == apply_field_args(default_config(), args@));
                assert(args@.skip(0) =~= args@);
            }
            while i < args.len()
                invariant
                    i <= args@.len(),
                    field_config(attrs@) == apply_field_args(default_config(), args@),
                    apply_field_args(slf, args@.skip(i as int)) == apply_field_args(
                        default_config(),
                        args@,
                    ),
                decreases args@.len() - i,
            {
                let arg = &args[i];
                proof {
                    assert(args@.skip(i as int)[0] == args@[i as int]);
                    assert(args@.skip(i as int).skip(1) =~= args@.skip(i + 1));
                }
                let name = get_path_name(&arg.path);
                if text_is(&name, "ctx") {
                    slf.ctx = Some(arg.value.clone());
                } else if text_is(&name, "ctx_write") {
                    slf.ctx_write = Some(arg.value.clone());
                } else if text_is(&name, "parse_if") {
                    slf.parse_if = Some(arg.value.clone());
                } else if text_is(&name, "len") {
                    slf.len = Some(arg.value.clone());
                } else if text_is(&name, "ignore") {
                    match bool_expr(arg) {
                        Ok(b) => slf.ignore = b,
                        Err(e) => {
                            return Err(e);
                        },
                    }
                } else if text_is(&name, "default") {
                    slf.default = Some(arg.value.clone());
                } else {
                    return Err(DeriveError { message: "invalid attribute".to_owned(), site: arg.site });
                }
                i = i + 1;
            }
            proof {
                assert(args@.skip(i as int) =~= Seq::<NameValueSyntax>::empty());
            }
        }
        Ok(slf)
    }

    /// The context expression a field of type `ty` is read and written with.
    pub open spec fn ctx_text(self, ty: TypeSyntax) -> Seq<char> {
        match self.ctx {
            Some(ctx) => ctx@,
            None => if is_bool_path(ty) {
                "()"@
            } else {
                "ctx"@
            },
        }
    }

    /// The context expression a field of type `ty` is read and written with.
    pub fn get_ctx(&self, ty: &TypeSyntax) -> (s: String)
        ensures
            s@ == self.ctx_text(*ty),
    {
        match &self.ctx {
            Some(ctx) => ctx.clone(),
            None => {
                if let TypeSyntax::Path { path, .. } = ty {
                    if path.segments.len() == 1 && text_is(&path.segments[0].ident, "bool") {
                        return "()".to_owned();
                    }
                }
                "ctx".to_owned()
            },
        }
    }

    /// The type of the length prefix, if the field has one.
    pub fn get_len(&self) -> (r: Option<String>)
        ensures
            r == self.len,
    {
        match &self.len {
            Some(expr) => Some(expr.clone()),
            None => None,
        }
    }
}

/// Whether `ty` is a path of one segment named `bool`, whatever its arguments.
pub open spec fn is_bool_path(ty: TypeSyntax) -> bool {
    match ty {
        TypeSyntax::Path { path, .. } => path.segments@.len() == 1 && path.segments@[0].ident@ == "bool"@,
        _ => false,
    }
}

} // verus!
