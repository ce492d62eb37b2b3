//! Properties that hold of the derives on every input.
use vstd::prelude::*;
use crate::config::{
    FieldConfig, apply_field_arg, apply_field_args, default_config, field_config, is_first_attr, lemma_first_attr_unique,
};
use crate::field::{Field, FieldDef, first_type_arg};
use crate::item::{
    EnumDef, EnumVariant, StructDef, arms_read_text, arms_write_text, fields_read_text,
    fields_write_text,
};
use crate::paths::path_has_suffix;
use crate::syntax::TypeSyntax;
use crate::paths::{path_is_ident, path_name};
use crate::syntax::{AttributeSyntax, ErrorView, NameValueSyntax, fail};
use crate::text::{decimal_text, digit_text};

verus! {

/// The keys a field attribute understands.
pub open spec fn is_field_option_key(key: Seq<char>) -> bool {
    ||| key == "ctx"@
    ||| key == "ctx_write"@
    ||| key == "parse_if"@
    ||| key == "len"@
    ||| key == "ignore"@
    ||| key == "default"@
}

/// The arguments of a field attribute take effect one after the other, in
/// the order they are written: reading `a` and then `b` is reading `a + b`,
/// and an error in `a` stops the reading there.
pub proof fn law_field_args_in_order(cfg: FieldConfig, a: Seq<NameValueSyntax>, b: Seq<NameValueSyntax>)
    ensures
        apply_field_args(cfg, a + b) == match apply_field_args(cfg, a) {
            Ok(c) => apply_field_args(c, b),
            Err(e) => Err(e),
        },
    decreases a.len(),
{
    if a.len() == 0 {
        assert(a + b =~= b);
    } else {
        assert((a + b)[0] == a[0]);
        assert((a + b).skip(1) =~= a.skip(1) + b);
        match apply_field_arg(cfg, a[0]) {
            Ok(next) => law_field_args_in_order(next, a.skip(1), b),
            Err(_) => {},
        }
    }
}

/// When a field attribute gives `ctx` more than once, the last one counts.
pub proof fn law_last_ctx_wins(cfg: FieldConfig, args: Seq<NameValueSyntax>, last: NameValueSyntax)
    requires
        path_name(last.path) == "ctx"@,
        apply_field_args(cfg, args) is Ok,
    ensures
        apply_field_args(cfg, args.push(last)) matches Ok(c) && c.ctx == Some(last.value),
{
    law_field_args_in_order(cfg, args, seq![last]);
    assert(args + seq![last] =~= args.push(last));
    let c = apply_field_args(cfg, args)->Ok_0;
    let one = seq![last];
    assert(one[0] == last);
    assert(one.skip(1) =~= Seq::<NameValueSyntax>::empty());
    let next = FieldConfig { ctx: Some(last.value), ..c };
    assert(apply_field_arg(c, last) == Ok::<FieldConfig, ErrorView>(next));
    assert(apply_field_args(next, one.skip(1)) == Ok::<FieldConfig, ErrorView>(next));
    assert(apply_field_args(c, one) == Ok::<FieldConfig, ErrorView>(next));
}

/// The first argument of a field attribute that is not one of its keys is
/// the error, reported at that argument.
pub proof fn law_first_unknown_key_reported(cfg: FieldConfig, args: Seq<NameValueSyntax>, k: int)
    requires
        0 <= k < args.len(),
        apply_field_args(cfg, args.take(k)) is Ok,
        !is_field_option_key(path_name(args[k].path)),
    ensures
        apply_field_args(cfg, args) == fail::<FieldConfig>("invalid attribute"@, args[k].site),
{
    law_field_args_in_order(cfg, args.take(k), args.skip(k));
    assert(args.take(k) + args.skip(k) =~= args);
    assert(args.skip(k)[0] == args[k]);
}

/// A field's options come from its first `byte` attribute alone: the
/// attributes after it do not count.
pub proof fn law_only_first_byte_attribute(attrs: Seq<AttributeSyntax>, i: int, more: Seq<AttributeSyntax>)
    requires
        is_first_attr(attrs, "byte"@, i),
    ensures
        field_config(attrs) == field_config(attrs.take(i + 1)),
        field_config(attrs + more) == field_config(attrs),
{
    let first = attrs.take(i + 1);
    let longer = attrs + more;
    assert(first[i] == attrs[i]);
    assert(longer[i] == attrs[i]);
    assert forall|j: int| 0 <= j < i implies !path_is_ident(#[trigger] first[j].path, "byte"@) by {
        assert(first[j] == attrs[j]);
        assert(!path_is_ident(attrs[j].path, "byte"@));
    }
    assert forall|j: int| 0 <= j < i implies !path_is_ident(#[trigger] longer[j].path, "byte"@) by {
        assert(longer[j] == attrs[j]);
        assert(!path_is_ident(attrs[j].path, "byte"@));
    }
    assert(is_first_attr(first, "byte"@, i));
    assert(is_first_attr(longer, "byte"@, i));
    let a = choose|k: int| is_first_attr(attrs, "byte"@, k);
    let b = choose|k: int| is_first_attr(first, "byte"@, k);
    let c = choose|k: int| is_first_attr(longer, "byte"@, k);
    lemma_first_attr_unique(attrs, "byte"@, i, a);
    lemma_first_attr_unique(first, "byte"@, i, b);
    lemma_first_attr_unique(longer, "byte"@, i, c);
}

/// A field without a `byte` attribute has the default options.
pub proof fn law_no_byte_attribute(attrs: Seq<AttributeSyntax>)
    requires
        forall|j: int| 0 <= j < attrs.len() ==> !path_is_ident(#[trigger] attrs[j].path, "byte"@),
    ensures
        field_config(attrs) == Ok::<FieldConfig, ErrorView>(default_config()),
{
    if exists|k: int| is_first_attr(attrs, "byte"@, k) {
        let k = choose|k: int| is_first_attr(attrs, "byte"@, k);
        assert(!path_is_ident(attrs[k].path, "byte"@));
    }
}

/// An ignored field is never written, and is read without touching the
/// bytes: it is bound to its default value.
pub proof fn law_ignored_field_untouched(f: Field, self_ref: bool)
    requires
        f.config.ignore,
    ensures
        f.write_text(self_ref) == Seq::<char>::empty(),
        f.read_text() == "let "@ + f.ident_text() + match f.config.default {
            None => " = Default::default(); "@,
            Some(expr) => " = "@ + expr@ + " ; "@,
        },
{
}

/// The numeric value of a text of decimal digits.
pub open spec fn decimal_value(s: Seq<char>) -> int
    decreases s.len(),
{
    if s.len() == 0 {
        0
    } else {
        decimal_value(s.drop_last()) * 10 + (s.last() as int - '0' as int)
    }
}

proof fn lemma_digit_text(d: nat)
    requires
        d < 10,
    ensures
        digit_text(d).len() == 1,
        digit_text(d)[0] as int - '0' as int == d,
{
    reveal_strlit("0");
    reveal_strlit("1");
    reveal_strlit("2");
    reveal_strlit("3");
    reveal_strlit("4");
    reveal_strlit("5");
    reveal_strlit("6");
    reveal_strlit("7");
    reveal_strlit("8");
    reveal_strlit("9");
}

/// The decimal text of `n` reads back as `n`.
pub proof fn law_decimal_reads_back(n: nat)
    ensures
        decimal_value(decimal_text(n)) == n,
    decreases n,
{
    if n < 10 {
        lemma_digit_text(n);
        let s = decimal_text(n);
        assert(s.drop_last() =~= Seq::<char>::empty());
        assert(decimal_value(s.drop_last()) == 0);
        assert(s.last() == s[0]);
    } else {
        law_decimal_reads_back(n / 10);
        lemma_digit_text(n % 10);
        let s = decimal_text(n);
        let prefix = decimal_text(n / 10);
        assert(s.drop_last() =~= prefix);
        assert(s.last() == digit_text(n % 10)[0]);
        assert(decimal_value(s) == decimal_value(prefix) * 10 + (s.last() as int - '0' as int));
        assert(n == (n / 10) * 10 + n % 10);
    }
}

/// Fields at different positions of a tuple struct or tuple variant are
/// bound to different names and found at different places in `self`.
pub proof fn law_positional_names_distinct(f: Field, g: Field)
    requires
        f.field_def matches FieldDef::Unnamed(i) && g.field_def matches FieldDef::Unnamed(j) && i
            != j,
    ensures
        f.ident_text() != g.ident_text(),
        f.self_call_text() != g.self_call_text(),
{
    let i = f.field_def->Unnamed_0;
    let j = g.field_def->Unnamed_0;
    law_decimal_reads_back(i as nat);
    law_decimal_reads_back(j as nat);
    let p = "field_"@;
    let q = "self . "@;
    if f.ident_text() == g.ident_text() {
        assert((p + decimal_text(i as nat)).skip(p.len() as int) =~= decimal_text(i as nat));
        assert((p + decimal_text(j as nat)).skip(p.len() as int) =~= decimal_text(j as nat));
    }
    if f.self_call_text() == g.self_call_text() {
        assert((q + decimal_text(i as nat)).skip(q.len() as int) =~= decimal_text(i as nat));
        assert((q + decimal_text(j as nat)).skip(q.len() as int) =~= decimal_text(j as nat));
    }
}

/// The texts `texts`, one after the other, from the first.
pub open spec fn concat_all(texts: Seq<Seq<char>>) -> Seq<char>
    decreases texts.len(),
{
    if texts.len() == 0 {
        Seq::empty()
    } else {
        texts[0] + concat_all(texts.skip(1))
    }
}

/// The read statements of each of `fields`, in declaration order.
pub open spec fn each_read(fields: Seq<Field>) -> Seq<Seq<char>> {
    fields.map_values(|f: Field| f.read_text())
}

/// The write statements of each of `fields`, in declaration order, each
/// field found in `self` when `self_ref` and by its bound name otherwise.
pub open spec fn each_write(fields: Seq<Field>, self_ref: bool) -> Seq<Seq<char>> {
    fields.map_values(|f: Field| f.write_text(self_ref))
}

/// The read arm of each of `variants`, in declaration order.
pub open spec fn each_read_arm(variants: Seq<EnumVariant>) -> Seq<Seq<char>> {
    variants.map_values(|v: EnumVariant| v.read_arm_text())
}

/// The write arm of each of `variants`, in declaration order.
pub open spec fn each_write_arm(variants: Seq<EnumVariant>, repr_ty: Seq<char>, no_tag: bool) -> Seq<Seq<char>> {
    variants.map_values(|v: EnumVariant| v.write_arm_text(repr_ty, no_tag))
}

proof fn lemma_concat_all_push(texts: Seq<Seq<char>>, x: Seq<char>)
    ensures
        concat_all(texts.push(x)) == concat_all(texts) + x,
    decreases texts.len(),
{
    if texts.len() == 0 {
        assert(texts.push(x).skip(1) =~= Seq::<Seq<char>>::empty());
        assert(texts.push(x)[0] == x);
        assert(concat_all(Seq::<Seq<char>>::empty()) == Seq::<char>::empty());
        assert(concat_all(texts.push(x)) == x + Seq::<char>::empty());
        assert(x + Seq::<char>::empty() =~= x);
    } else {
        assert(texts.push(x).skip(1) =~= texts.skip(1).push(x));
        lemma_concat_all_push(texts.skip(1), x);
        assert(texts.push(x)[0] == texts[0]);
        assert(texts[0] + (concat_all(texts.skip(1)) + x) =~= (texts[0] + concat_all(texts.skip(1))) + x);
    }
}

proof fn lemma_each_read(fields: Seq<Field>)
    ensures
        concat_all(each_read(fields)) == fields_read_text(fields),
    decreases fields.len(),
{
    if fields.len() > 0 {
        lemma_each_read(fields.drop_last());
        assert(each_read(fields) =~= each_read(fields.drop_last()).push(fields.last().read_text()));
        lemma_concat_all_push(each_read(fields.drop_last()), fields.last().read_text());
    }
}

proof fn lemma_each_write(fields: Seq<Field>, self_ref: bool)
    ensures
        concat_all(each_write(fields, self_ref)) == fields_write_text(fields, self_ref),
    decreases fields.len(),
{
    if fields.len() > 0 {
        lemma_each_write(fields.drop_last(), self_ref);
        assert(each_write(fields, self_ref) =~= each_write(fields.drop_last(), self_ref).push(
            fields.last().write_text(self_ref),
        ));
        lemma_concat_all_push(each_write(fields.drop_last(), self_ref), fields.last().write_text(self_ref));
    }
}

proof fn lemma_each_read_arm(variants: Seq<EnumVariant>)
    ensures
        concat_all(each_read_arm(variants)) == arms_read_text(variants),
    decreases variants.len(),
{
    if variants.len() > 0 {
        lemma_each_read_arm(variants.drop_last());
        assert(each_read_arm(variants) =~= each_read_arm(variants.drop_last()).push(
            variants.last().read_arm_text(),
        ));
        lemma_concat_all_push(each_read_arm(variants.drop_last()), variants.last().read_arm_text());
    }
}

proof fn lemma_each_write_arm(variants: Seq<EnumVariant>, repr_ty: Seq<char>, no_tag: bool)
    ensures
        concat_all(each_write_arm(variants, repr_ty, no_tag)) == arms_write_text(variants, repr_ty, no_tag),
    decreases variants.len(),
{
    if variants.len() > 0 {
        lemma_each_write_arm(variants.drop_last(), repr_ty, no_tag);
        assert(each_write_arm(variants, repr_ty, no_tag) =~= each_write_arm(
            variants.drop_last(),
            repr_ty,
            no_tag,
        ).push(variants.last().write_arm_text(repr_ty, no_tag)));
        lemma_concat_all_push(
            each_write_arm(variants.drop_last(), repr_ty, no_tag),
            variants.last().write_arm_text(repr_ty, no_tag),
        );
    }
}

/// The generated `try_read` of a struct does, between setting up the offset
/// and returning the value, exactly the reads of its fields, one after the
/// other in declaration order (named or positional alike).
pub proof fn law_struct_reads_fields_in_order(def: StructDef)
    ensures
        exists|pre: Seq<char>, post: Seq<char>|
            def.read_impl_text() == pre + ("let offset = &mut 0; "@ + concat_all(
                each_read(def.field_seq()),
            ) + "Ok(( "@) + post,
{
    lemma_each_read(def.field_seq());
    let g = def.generics@;
    let ctx = crate::item::ctx_type_text(def.ctx);
    let pre = "impl< "@ + g + " > ::byte::TryRead<'_, "@ + ctx + " > for "@ + def.ident@ + " < "@ + g
        + " > { fn try_read(bytes: &'_ [u8], ctx: "@ + ctx
        + " ) -> ::byte::Result<(Self, usize)> { use ::byte::BytesExt; "@;
    let post = def.self_obj_text() + " , *offset)) } } "@;
    let mid = "let offset = &mut 0; "@ + concat_all(each_read(def.field_seq())) + "Ok(( "@;
    assert(def.read_impl_text() =~= pre + mid + post);
}

/// The generated `try_write` of a struct (the impl for a reference, which the
/// impl for a value calls) does, between setting up the offset and returning
/// it, exactly the writes of its fields from `self`, one after the other in
/// declaration order (named or positional alike).
pub proof fn law_struct_writes_fields_in_order(def: StructDef)
    ensures
        exists|pre: Seq<char>, post: Seq<char>|
            def.write_impl_text() == pre + ("let offset = &mut 0; "@ + concat_all(
                each_write(def.field_seq(), true),
            ) + "Ok(*offset) "@) + post,
{
    lemma_each_write(def.field_seq(), true);
    let g = def.generics@;
    let ctx = crate::item::ctx_type_text(def.ctx);
    let pre = "impl< "@ + g + " > ::byte::TryWrite< "@ + ctx + " > for & "@ + def.ident@ + " < "@ + g
        + " > { fn try_write(self, bytes: &mut [u8], ctx: "@ + ctx
        + " ) -> ::byte::Result<usize> { use ::byte::BytesExt; "@;
    let post = "} } impl< "@ + g + " > ::byte::TryWrite< "@ + ctx + " > for "@ + def.ident@ + " < "@ + g
        + " > { fn try_write(self, bytes: &mut [u8], ctx: "@ + ctx
        + " ) -> ::byte::Result<usize> { (&self).try_write(bytes, ctx) } } "@;
    let mid = "let offset = &mut 0; "@ + concat_all(each_write(def.field_seq(), true)) + "Ok(*offset) "@;
    assert(def.write_impl_text() =~= pre + mid + post);
}

/// The generated `TryRead` impl of an enum (in its context) first reads the
/// tag as the `#[repr]` type, little endian, and then matches it against the
/// arms of the variants in declaration order.
#[verifier::rlimit(60)]
pub proof fn law_enum_reads_tag_as_repr(def: EnumDef)
    ensures
        exists|pre: Seq<char>, post: Seq<char>|
            def.read_impl_text() == pre + ("let offset = &mut 0; "@
                + "let discriminant = bytes.read_with::< "@ + def.repr_ty@
                + " >(offset, byte::LE)?; "@ + "let value = match discriminant { "@ + concat_all(
                each_read_arm(def.variants@),
            ) + "_ => { "@) + post,
{
    lemma_each_read_arm(def.variants@);
    let g = def.generics@;
    let ctx = crate::item::ctx_type_text(def.ctx);
    let repr = def.repr_ty@;
    let arms = concat_all(each_read_arm(def.variants@));
    let rest_match = "return Err(byte::Error::BadInput { err: \"unknown enum tag received\" }) } }; Ok((value, *offset)) } } "@;
    let pre = "impl< "@ + g + " > ::byte::TryRead<'_, "@ + ctx + " > for "@ + def.ident@ + " < "@ + g
        + " > { fn try_read(bytes: &'_ [u8], ctx: "@ + ctx
        + " ) -> ::byte::Result<(Self, usize)> { use ::byte::BytesExt; "@;
    let second = "impl< "@ + g + " > ::byte::TryRead<'_, "@ + repr + " > for "@ + def.ident@ + " < "@
        + g + " > { fn try_read(bytes: &'_ [u8], discriminant: "@ + repr
        + " ) -> ::byte::Result<(Self, usize)> { use ::byte::BytesExt; let offset = &mut 0; let ctx = byte::LE; "@
        + def.match_read_text();
    let m = "let value = match discriminant { "@ + arms + "_ => { "@;
    assert(def.match_read_text() =~= m + rest_match);
    let mid = "let offset = &mut 0; "@ + "let discriminant = bytes.read_with::< "@ + repr
        + " >(offset, byte::LE)?; "@ + "let value = match discriminant { "@ + arms + "_ => { "@;
    let head = "let offset = &mut 0; "@ + "let discriminant = bytes.read_with::< "@ + repr
        + " >(offset, byte::LE)?; "@;
    assert(def.read_impl_text() == pre + head + def.match_read_text() + second);
    assert(mid =~= head + m);
    assert(head + def.match_read_text() =~= mid + rest_match);
    assert(pre + head + def.match_read_text() + second =~= pre + (head + def.match_read_text()) + second);
    assert(pre + (mid + rest_match) + second =~= pre + mid + (rest_match + second));
    assert(def.read_impl_text() == pre + mid + (rest_match + second));
}

/// The generated `TryRead` impls of an enum include one keyed by the
/// `#[repr]` type, which is handed the tag.
pub proof fn law_enum_read_keyed_by_repr(def: EnumDef)
    ensures
        exists|pre: Seq<char>, post: Seq<char>|
            def.read_impl_text() == pre + (" > ::byte::TryRead<'_, "@ + def.repr_ty@ + " > for "@
                + def.ident@) + post,
{
    let g = def.generics@;
    let ctx = crate::item::ctx_type_text(def.ctx);
    let repr = def.repr_ty@;
    let first = "impl< "@ + g + " > ::byte::TryRead<'_, "@ + ctx + " > for "@ + def.ident@ + " < "@ + g
        + " > { fn try_read(bytes: &'_ [u8], ctx: "@ + ctx
        + " ) -> ::byte::Result<(Self, usize)> { use ::byte::BytesExt; "@ + "let offset = &mut 0; "@
        + "let discriminant = bytes.read_with::< "@ + repr + " >(offset, byte::LE)?; "@
        + def.match_read_text();
    let pre2 = first + "impl< "@ + g;
    let mid2 = " > ::byte::TryRead<'_, "@ + repr + " > for "@ + def.ident@;
    let post2 = " < "@ + g + " > { fn try_read(bytes: &'_ [u8], discriminant: "@ + repr
        + " ) -> ::byte::Result<(Self, usize)> { use ::byte::BytesExt; let offset = &mut 0; let ctx = byte::LE; "@
        + def.match_read_text();
    assert(def.read_impl_text() == first + "impl< "@ + g + " > ::byte::TryRead<'_, "@ + repr + " > for "@
        + def.ident@ + post2);
    assert(first + "impl< "@ + g + " > ::byte::TryRead<'_, "@ + repr + " > for "@ + def.ident@ + post2
        =~= pre2 + mid2 + post2);
}

/// The generated `TryWrite` impl of an enum matches `self` against the write
/// arms of its variants, in declaration order.
pub proof fn law_enum_writes_arms_in_order(def: EnumDef)
    ensures
        exists|pre: Seq<char>, post: Seq<char>|
            def.write_impl_text() == pre + ("match self { "@ + concat_all(
                each_write_arm(def.variants@, def.repr_ty@, def.no_tag),
            ) + "} "@) + post,
{
    lemma_each_write_arm(def.variants@, def.repr_ty@, def.no_tag);
    let g = def.generics@;
    let ctx = crate::item::ctx_type_text(def.ctx);
    let pre = "impl< "@ + g + " > ::byte::TryWrite< "@ + ctx + " > for "@ + def.ident@ + " < "@ + g
        + " > { fn try_write(self, bytes: &mut [u8], ctx: "@ + ctx
        + " ) -> ::byte::Result<usize> { use ::byte::BytesExt; let offset = &mut 0; "@;
    let mid = "match self { "@ + concat_all(each_write_arm(def.variants@, def.repr_ty@, def.no_tag))
        + "} "@;
    assert(def.write_impl_text() =~= pre + mid + "Ok(*offset) } } "@);
}

/// The write arm of a variant matches the variant, writes its discriminant as
/// the `#[repr]` type, little endian (unless `no_tag`), and then writes its
/// fields by their bound names, one after the other in declaration order.
pub proof fn law_variant_writes_tag_then_fields(v: EnumVariant, repr_ty: Seq<char>, no_tag: bool)
    ensures
        v.write_arm_text(repr_ty, no_tag) == v.ctor_text() + (if no_tag {
            " => { "@
        } else {
            " => { bytes.write_with(offset, "@ + v.discriminant@ + " as "@ + repr_ty
                + " , byte::LE)?; "@
        }) + concat_all(each_write(v.field_seq(), false)) + "} "@,
{
    lemma_each_write(v.field_seq(), false);
    if no_tag {
        assert(v.write_arm_text(repr_ty, no_tag) =~= v.ctor_text() + " => { "@ + concat_all(
            each_write(v.field_seq(), false),
        ) + "} "@);
    } else {
        assert(v.write_arm_text(repr_ty, no_tag) =~= v.ctor_text() + (
        " => { bytes.write_with(offset, "@ + v.discriminant@ + " as "@ + repr_ty + " , byte::LE)?; "@)
            + concat_all(each_write(v.field_seq(), false)) + "} "@);
    }
}

/// The read arm of a variant, taken when the tag is its discriminant, reads
/// its fields one after the other in declaration order and then builds the
/// variant from them.
pub proof fn law_variant_reads_fields_then_builds(v: EnumVariant)
    ensures
        v.read_arm_text() == v.discriminant@ + " => { "@ + concat_all(each_read(v.field_seq()))
            + v.ctor_text() + " }, "@,
{
    lemma_each_read(v.field_seq());
    if v.fields is None {
        assert(v.field_seq() =~= Seq::<Field>::empty());
        assert(concat_all(each_read(v.field_seq())) =~= Seq::<char>::empty());
    }
    assert(v.read_arm_text() =~= v.discriminant@ + " => { "@ + concat_all(each_read(v.field_seq()))
        + v.ctor_text() + " }, "@);
}

/// Whether `f` is a vector field with a length prefix of type `len`.
pub open spec fn is_prefixed_vec(f: Field, len: Seq<char>) -> bool {
    &&& !f.config.ignore
    &&& f.ty matches TypeSyntax::Path { path, .. }
    &&& !path_has_suffix(path, "Option"@)
    &&& path_has_suffix(path, "Vec"@)
    &&& f.config.len matches Some(l) && l@ == len
}

/// A vector field with `#[byte(len = L)]` is written as its item count in `L`,
/// in the field's context, first; and it is read back by first reading a
/// count of that same type `L` in that same context.
pub proof fn law_vec_count_prefix_type(f: Field, len: Seq<char>, slf: Seq<char>)
    requires
        is_prefixed_vec(f, len),
        f.ty matches TypeSyntax::Path { path, .. } && first_type_arg(path) is Some,
    ensures
        exists|post: Seq<char>|
            f.write_text_at(slf) == ("bytes.write_with::< "@ + len + " >(offset, "@ + slf
                + " .len() as "@ + len + " , "@ + f.ctx_text() + " )?; "@) + post,
        exists|post: Seq<char>|
            f.read_text() == ("let size = bytes.read_with::< "@ + len + " >(offset, "@
                + f.ctx_text() + " )?; "@) + post,
{
    let path = f.ty->Path_path;
    let item = first_type_arg(path)->Some_0;
    let ctx = f.ctx_text();
    let head_w = "bytes.write_with::< "@ + len + " >(offset, "@ + slf + " .len() as "@ + len + " , "@
        + ctx + " )?; "@;
    let write = if crate::utils::type_is_primitive(item) {
        "bytes.write_with(offset, *item, "@ + ctx + " )?; "@
    } else {
        "bytes.write_with(offset, item, "@ + ctx + " )?; "@
    };
    let post_w = "for item in "@ + slf + " .iter() { "@ + write + "} "@;
    assert(f.write_text_at(slf) =~= head_w + post_w);
    let head_r = "let size = bytes.read_with::< "@ + len + " >(offset, "@ + ctx + " )?; "@;
    let text = f.read_vec_text(path);
    assert(f.read_text() == text);
    assert(text.take(head_r.len() as int) =~= head_r);
    assert(text =~= head_r + text.skip(head_r.len() as int));
}

} // verus!
