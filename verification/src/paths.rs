//! Questions the derives ask of paths.
use vstd::prelude::*;
use vstd::string::*;
use crate::syntax::{PathArgumentsSyntax, PathSyntax};
use crate::text::{chars_views, split_double_colon, split_on_double_colon, text_eq_chars, text_is};

verus! {

/// Whether `path` is the single plain identifier `name` (`Path::is_ident`).
pub open spec fn path_is_ident(path: PathSyntax, name: Seq<char>) -> bool {
    &&& !path.leading_colon
    &&& path.segments@.len() == 1
    &&& path.segments@[0].arguments is NoArguments
    &&& path.segments@[0].ident@ == name
}

/// Whether `path` is the single plain identifier `name`.
pub fn is_ident(path: &PathSyntax, name: &str) -> (b: bool)
    ensures
        b == path_is_ident(*path, name@),
{
    if path.leading_colon || path.segments.len() != 1 {
        return false;
    }
    let seg = &path.segments[0];
    match seg.arguments {
        PathArgumentsSyntax::NoArguments => text_is(&seg.ident, name),
        _ => false,
    }
}

/// The name of a path of one segment; empty for any other path.
pub open spec fn path_name(path: PathSyntax) -> Seq<char> {
    if path.segments@.len() != 1 {
        Seq::empty()
    } else {
        path.segments@[0].ident@
    }
}

/// The name of a path of one segment; empty for any other path.
pub fn get_path_name(path: &PathSyntax) -> (name: String)
    ensures
        name@ == path_name(*path),
{
    if path.segments.len() != 1 {
        String::new()
    } else {
        path.segments[0].ident.clone()
    }
}

/// Whether the last segments of `path` are named, in order, by the parts of
/// `suffix` between its `::` separators.
pub open spec fn path_has_suffix(path: PathSyntax, suffix: Seq<char>) -> bool {
    let parts = split_double_colon(suffix);
    let n = path.segments@.len();
    &&& parts.len() <= n
    &&& forall|k: int|
        0 <= k < parts.len() ==> #[trigger] path.segments@[n - parts.len() + k].ident@ == parts[k]
}

/// Whether the last segments of `path` are named, in order, by the parts of
/// `ident_str` between its `::` separators.
pub fn path_ends_with(path: &PathSyntax, ident_str: &str) -> (b: bool)
    ensures
        b == path_has_suffix(*path, ident_str@),
{
    let segments = &path.segments;
    let parts = split_on_double_colon(ident_str);
    let ghost pv = split_double_colon(ident_str@);
    if segments.len() < parts.len() {
        return false;
    }
    let total = segments.len();
    let start = total - parts.len();
    proof {
        assert(pv.len() == parts@.len());
    }
    let mut k: usize = 0;
    while k < parts.len()
        invariant
            chars_views(parts@) == pv,
            pv == split_double_colon(ident_str@),
            pv.len() == parts@.len(),
            start + parts@.len() == total,
            total == segments@.len(),
            segments@ == path.segments@,
            k <= parts@.len(),
            forall|j: int|
                0 <= j < k ==> #[trigger] path.segments@[path.segments@.len() - pv.len() + j].ident@
                    == pv[j],
        decreases parts@.len() - k,
    {
        if !text_eq_chars(segments[start + k].ident.as_str(), &parts[k]) {
            proof {
                assert(pv[k as int] == parts@[k as int]@);
                let kk = k as int;
                assert(path.segments@[path.segments@.len() - pv.len() + kk].ident@ != pv[kk]);
            }
            return false;
        }
        k = k + 1;
    }
    true
}

/// The generic arguments of the last segment of `path`, without the brackets;
/// empty when it has none in angle brackets.
pub open spec fn last_angle_args_text(path: PathSyntax) -> Seq<char> {
    if path.segments@.len() == 0 {
        Seq::empty()
    } else {
        match path.segments@.last().arguments {
            PathArgumentsSyntax::AngleBracketed { args_tokens, .. } => args_tokens@,
            _ => Seq::empty(),
        }
    }
}

/// Appends the generic arguments of the last segment of `path`, without the
/// brackets.
pub fn type_generics_to_tokens(path: &PathSyntax, tokens: &mut String)
    requires
        path.segments@.len() > 0,
    ensures
        final(tokens)@ == old(tokens)@ + last_angle_args_text(*path),
{
    let n = path.segments.len();
    let segment = &path.segments[n - 1];
    match &segment.arguments {
        PathArgumentsSyntax::AngleBracketed { args_tokens, .. } => {
            tokens.append(args_tokens.as_str());
        },
        _ => {
            proof {
                assert(old(tokens)@ + Seq::<char>::empty() =~= old(tokens)@);
            }
        },
    }
}

} // verus!
