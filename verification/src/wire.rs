//! What the generated impls do with bytes, and the round trip they promise:
//! reading back what was written gives the same values and consumes exactly
//! the bytes that were written.
//!
//! The generated code calls `read_with` and `write_with` of the `byte` crate
//! for each field type; what those do is not this library's code. So the
//! semantics here takes it as a parameter: an `Env` says, for each type and
//! context (by their source text), how a value is written and read, what a
//! constant expression such as an array length stands for, and whether a
//! `parse_if` condition holds given the fields read before it.
use vstd::prelude::*;
use crate::field::{Field, first_type_arg, has_two_angle_args};
use crate::item::{EnumDef, EnumVariant, StructDef};
use crate::paths::{last_angle_args_text, path_has_suffix};
use crate::syntax::{GenericArgumentSyntax, PathArgumentsSyntax, PathSyntax, TypeSyntax};

verus! {

/// How values of one type are written in one context, and read back from the
/// front of some bytes together with the number of bytes read.
pub struct Codec {
    pub write: spec_fn(int) -> Seq<u8>,
    pub read: spec_fn(Seq<u8>) -> Option<(int, nat)>,
}

/// What the code around the generated impls stands for.
pub struct Env {
    /// The codec of a type (by its text) in a context (by its text).
    pub codec: spec_fn(Seq<char>, Seq<char>) -> Codec,
    /// The value of a constant expression, such as an array length.
    pub constant: spec_fn(Seq<char>) -> int,
    /// Whether a `parse_if` condition holds, given the fields read before it.
    pub holds: spec_fn(Seq<char>, Seq<FieldValue>) -> bool,
}

/// The value of a field, as far as its bytes go.
pub enum FieldValue {
    /// A value of a type read and written whole.
    Single(int),
    /// The elements of an array or tuple, or the items of a vector.
    Many(Seq<int>),
    /// An optional value.
    Maybe(Option<int>),
    /// An ignored field: it is read as its default.
    Skipped,
}

/// The codec of `bool` values in the unit context, used for presence flags.
pub open spec fn flag_codec(env: Env) -> Codec {
    (env.codec)("bool"@, "()"@)
}

/// Whether `c` reads back what it writes of `x`, whatever follows it.
pub open spec fn round_trips(c: Codec, x: int) -> bool {
    forall|rest: Seq<u8>| #[trigger] (c.read)((c.write)(x) + rest) == Some((x, (c.write)(x).len()))
}

/// `xs` written one after the other.
pub open spec fn items_write(c: Codec, xs: Seq<int>) -> Seq<u8>
    decreases xs.len(),
{
    if xs.len() == 0 {
        Seq::empty()
    } else {
        (c.write)(xs[0]) + items_write(c, xs.skip(1))
    }
}

/// `n` values read one after the other.
pub open spec fn items_read(c: Codec, n: nat, bytes: Seq<u8>) -> Option<(Seq<int>, nat)>
    decreases n,
{
    if n == 0 {
        Some((Seq::empty(), 0))
    } else {
        match (c.read)(bytes) {
            Some((x, k)) => match items_read(c, (n - 1) as nat, bytes.skip(k as int)) {
                Some((xs, m)) => Some((seq![x] + xs, k + m)),
                None => None,
            },
            None => None,
        }
    }
}

/// Values read one after the other until no bytes are left; a read that
/// consumes nothing never ends, and gives no result.
pub open spec fn items_read_all(c: Codec, bytes: Seq<u8>) -> Option<(Seq<int>, nat)>
    decreases bytes.len(),
{
    if bytes.len() == 0 {
        Some((Seq::empty(), 0))
    } else {
        match (c.read)(bytes) {
            Some((x, k)) => if 0 < k <= bytes.len() {
                match items_read_all(c, bytes.skip(k as int)) {
                    Some((xs, m)) => Some((seq![x] + xs, k + m)),
                    None => None,
                }
            } else {
                None
            },
            None => None,
        }
    }
}

/// Values of the types of `codecs`, one each, written one after the other.
pub open spec fn typed_write(codecs: Seq<Codec>, xs: Seq<int>) -> Seq<u8>
    decreases codecs.len(),
{
    if codecs.len() == 0 {
        Seq::empty()
    } else {
        (codecs[0].write)(xs[0]) + typed_write(codecs.skip(1), xs.skip(1))
    }
}

/// Values of the types of `codecs`, one each, read one after the other.
pub open spec fn typed_read(codecs: Seq<Codec>, bytes: Seq<u8>) -> Option<(Seq<int>, nat)>
    decreases codecs.len(),
{
    if codecs.len() == 0 {
        Some((Seq::empty(), 0))
    } else {
        match (codecs[0].read)(bytes) {
            Some((x, k)) => match typed_read(codecs.skip(1), bytes.skip(k as int)) {
                Some((xs, m)) => Some((seq![x] + xs, k + m)),
                None => None,
            },
            None => None,
        }
    }
}

/// The text of the generic argument at position `i` of the last segment of `path`.
pub open spec fn angle_arg_text(path: PathSyntax, i: int) -> Seq<char> {
    match path.segments@.last().arguments {
        PathArgumentsSyntax::AngleBracketed { args, .. } => match args@[i] {
            GenericArgumentSyntax::Type(t) => t.text(),
            GenericArgumentSyntax::Other { tokens } => tokens@,
        },
        _ => Seq::empty(),
    }
}

/// The type of the items of an `Option` or vector field of type `path`.
pub open spec fn item_type_text(path: PathSyntax) -> Seq<char> {
    match first_type_arg(path) {
        Some(t) => t.text(),
        None => Seq::empty(),
    }
}

/// The most items a vector of type `path` holds, when its type says.
pub open spec fn capacity(env: Env, path: PathSyntax) -> Option<int> {
    if has_two_angle_args(path) {
        Some((env.constant)(angle_arg_text(path, 1)))
    } else {
        None
    }
}

/// A count read from the bytes, as the loop `for _ in 0..size` uses it.
pub open spec fn count(n: int) -> nat {
    if n <= 0 { 0 } else { n as nat }
}

/// What the code of `Field::read_text` does: reads the field from the front
/// of `bytes`, after the fields `earlier`; the value and the bytes consumed.
pub open spec fn field_read(env: Env, f: Field, earlier: Seq<FieldValue>, bytes: Seq<u8>) -> Option<(FieldValue, nat)> {
    let ctx = f.ctx_text();
    if f.config.ignore {
        Some((FieldValue::Skipped, 0))
    } else {
        match f.ty {
            TypeSyntax::Array { elem, len, .. } => match items_read(
                (env.codec)(elem.text(), ctx),
                count((env.constant)(len@)),
                bytes,
            ) {
                Some((xs, k)) => Some((FieldValue::Many(xs), k)),
                None => None,
            },
            TypeSyntax::Path { path, tokens } => if path_has_suffix(path, "Option"@) {
                let present = match f.config.parse_if {
                    Some(cond) => Some(((env.holds)(cond@, earlier), 0nat)),
                    None => match (flag_codec(env).read)(bytes) {
                        Some((b, k)) => Some((b != 0, k)),
                        None => None,
                    },
                };
                match present {
                    Some((true, k)) => match ((env.codec)(last_angle_args_text(path), ctx).read)(
                        bytes.skip(k as int),
                    ) {
                        Some((x, m)) => Some((FieldValue::Maybe(Some(x)), k + m)),
                        None => None,
                    },
                    Some((false, k)) => Some((FieldValue::Maybe(None), k)),
                    None => None,
                }
            } else if path_has_suffix(path, "Vec"@) {
                let item = (env.codec)(item_type_text(path), ctx);
                let got = match f.config.len {
                    Some(len) => match ((env.codec)(len@, ctx).read)(bytes) {
                        Some((n, k)) => match items_read(item, count(n), bytes.skip(k as int)) {
                            Some((xs, m)) => Some((xs, k + m)),
                            None => None,
                        },
                        None => None,
                    },
                    None => items_read_all(item, bytes),
                };
                match got {
                    Some((xs, k)) => match capacity(env, path) {
                        Some(cap) => if xs.len() > cap {
                            None
                        } else {
                            Some((FieldValue::Many(xs), k))
                        },
                        None => Some((FieldValue::Many(xs), k)),
                    },
                    None => None,
                }
            } else {
                match ((env.codec)(tokens@, ctx).read)(bytes) {
                    Some((x, k)) => Some((FieldValue::Single(x), k)),
                    None => None,
                }
            },
            TypeSyntax::Tuple { elems, .. } => match typed_read(
                elems@.map_values(|e: TypeSyntax| (env.codec)(e.text(), ctx)),
                bytes,
            ) {
                Some((xs, k)) => Some((FieldValue::Many(xs), k)),
                None => None,
            },
            TypeSyntax::Other { .. } => None,
        }
    }
}

/// What the code of `Field::write_text` does: the bytes it writes for the value `v`.
pub open spec fn field_write(env: Env, f: Field, v: FieldValue) -> Seq<u8> {
    let ctx = f.ctx_text();
    if f.config.ignore {
        Seq::empty()
    } else {
        match f.ty {
            TypeSyntax::Array { elem, len, .. } => items_write(
                (env.codec)(elem.text(), ctx),
                v->Many_0.take(count((env.constant)(len@)) as int),
            ),
            TypeSyntax::Path { path, tokens } => if path_has_suffix(path, "Option"@) {
                let flagged = f.config.parse_if is None;
                match v->Maybe_0 {
                    Some(x) => (if flagged {
                        (flag_codec(env).write)(1)
                    } else {
                        Seq::empty()
                    }) + ((env.codec)(item_type_text(path), ctx).write)(x),
                    None => if flagged {
                        (flag_codec(env).write)(0)
                    } else {
                        Seq::empty()
                    },
                }
            } else if path_has_suffix(path, "Vec"@) {
                let xs = v->Many_0;
                (match f.config.len {
                    Some(len) => ((env.codec)(len@, ctx).write)(xs.len() as int),
                    None => Seq::empty(),
                }) + items_write((env.codec)(item_type_text(path), ctx), xs)
            } else {
                ((env.codec)(tokens@, ctx).write)(v->Single_0)
            },
            TypeSyntax::Tuple { elems, .. } => typed_write(
                elems@.map_values(|e: TypeSyntax| (env.codec)(e.text(), ctx)),
                v->Many_0,
            ),
            TypeSyntax::Other { .. } => Seq::empty(),
        }
    }
}

/// Whether `c` reads back each of `xs`.
pub open spec fn all_round_trip(c: Codec, xs: Seq<int>) -> bool {
    forall|i: int| 0 <= i < xs.len() ==> round_trips(c, #[trigger] xs[i])
}

/// Whether `f` is read up to the end of the bytes: a vector without a length prefix.
pub open spec fn reads_to_end(f: Field) -> bool {
    &&& !f.config.ignore
    &&& f.ty matches TypeSyntax::Path { path, .. }
    &&& !path_has_suffix(path, "Option"@)
    &&& path_has_suffix(path, "Vec"@)
    &&& f.config.len is None
}

/// Whether the field `f` holding `v`, written after the fields `earlier`, is
/// one whose bytes read back as `v`: the value has the shape of the field,
/// the codecs read back its parts, a `parse_if` condition holds exactly when
/// the value is present, a length fits its prefix type, a vector fits its
/// capacity, and the items of a vector read up to the end each take bytes.
pub open spec fn value_fits(env: Env, f: Field, v: FieldValue, earlier: Seq<FieldValue>) -> bool {
    let ctx = f.ctx_text();
    if f.config.ignore {
        v is Skipped
    } else {
        match f.ty {
            TypeSyntax::Array { elem, len, .. } => match v {
                FieldValue::Many(xs) => {
                    &&& xs.len() == count((env.constant)(len@))
                    &&& all_round_trip((env.codec)(elem.text(), ctx), xs)
                },
                _ => false,
            },
            TypeSyntax::Path { path, tokens } => if path_has_suffix(path, "Option"@) {
                match v {
                    FieldValue::Maybe(o) => {
                        &&& last_angle_args_text(path) == item_type_text(path)
                        &&& (o matches Some(x) ==> round_trips(
                            (env.codec)(item_type_text(path), ctx),
                            x,
                        ))
                        &&& match f.config.parse_if {
                            Some(cond) => (env.holds)(cond@, earlier) == (o is Some),
                            None => round_trips(flag_codec(env), 0) && round_trips(
                                flag_codec(env),
                                1,
                            ),
                        }
                    },
                    _ => false,
                }
            } else if path_has_suffix(path, "Vec"@) {
                let item = (env.codec)(item_type_text(path), ctx);
                match v {
                    FieldValue::Many(xs) => {
                        &&& all_round_trip(item, xs)
                        &&& (capacity(env, path) matches Some(cap) ==> xs.len() <= cap)
                        &&& match f.config.len {
                            Some(len) => round_trips((env.codec)(len@, ctx), xs.len() as int),
                            None => forall|i: int|
                                0 <= i < xs.len() ==> (#[trigger] (item.write)(xs[i])).len() > 0,
                        }
                    },
                    _ => false,
                }
            } else {
                match v {
                    FieldValue::Single(x) => round_trips((env.codec)(tokens@, ctx), x),
                    _ => false,
                }
            },
            TypeSyntax::Tuple { elems, .. } => match v {
                FieldValue::Many(xs) => {
                    &&& xs.len() == elems@.len()
                    &&& forall|i: int|
                        0 <= i < xs.len() ==> round_trips(
                            (env.codec)((#[trigger] elems@[i]).text(), ctx),
                            xs[i],
                        )
                },
                _ => false,
            },
            TypeSyntax::Other { .. } => false,
        }
    }
}

/// Reading back `xs` written one after the other gives `xs`.
pub proof fn lemma_items_round_trip(c: Codec, xs: Seq<int>, rest: Seq<u8>)
    requires
        all_round_trip(c, xs),
    ensures
        items_read(c, xs.len(), items_write(c, xs) + rest) == Some((xs, items_write(c, xs).len())),
    decreases xs.len(),
{
    if xs.len() > 0 {
        let w0 = (c.write)(xs[0]);
        let tail = xs.skip(1);
        let wt = items_write(c, tail);
        assert(all_round_trip(c, tail)) by {
            assert forall|i: int| 0 <= i < tail.len() implies round_trips(c, #[trigger] tail[i]) by {
                assert(tail[i] == xs[i + 1]);
            }
        }
        lemma_items_round_trip(c, tail, rest);
        let bytes = items_write(c, xs) + rest;
        assert(bytes =~= w0 + (wt + rest));
        assert(round_trips(c, xs[0]));
        assert((c.read)(w0 + (wt + rest)) == Some((xs[0], w0.len())));
        assert(bytes.skip(w0.len() as int) =~= wt + rest);
        assert(seq![xs[0]] + tail =~= xs);
        assert((xs.len() - 1) as nat == tail.len());
    }
}

/// Reading values up to the end of what `xs` wrote gives `xs`, when each
/// value takes bytes.
pub proof fn lemma_items_read_all(c: Codec, xs: Seq<int>)
    requires
        all_round_trip(c, xs),
        forall|i: int| 0 <= i < xs.len() ==> (#[trigger] (c.write)(xs[i])).len() > 0,
    ensures
        items_read_all(c, items_write(c, xs)) == Some((xs, items_write(c, xs).len())),
    decreases xs.len(),
{
    if xs.len() > 0 {
        let w0 = (c.write)(xs[0]);
        let tail = xs.skip(1);
        let wt = items_write(c, tail);
        assert(all_round_trip(c, tail)) by {
            assert forall|i: int| 0 <= i < tail.len() implies round_trips(c, #[trigger] tail[i]) by {
                assert(tail[i] == xs[i + 1]);
            }
        }
        assert forall|i: int| 0 <= i < tail.len() implies (#[trigger] (c.write)(tail[i])).len() > 0 by {
            assert(tail[i] == xs[i + 1]);
        }
        lemma_items_read_all(c, tail);
        let bytes = items_write(c, xs);
        assert(round_trips(c, xs[0]));
        assert((c.read)(w0 + wt) == Some((xs[0], w0.len())));
        assert(w0.len() > 0);
        assert(bytes.skip(w0.len() as int) =~= wt);
        assert(seq![xs[0]] + tail =~= xs);
    } else {
        assert(items_write(c, xs).len() == 0);
    }
}

/// Reading back values of the types of `codecs`, written one after the
/// other, gives them.
pub proof fn lemma_typed_round_trip(codecs: Seq<Codec>, xs: Seq<int>, rest: Seq<u8>)
    requires
        xs.len() == codecs.len(),
        forall|i: int| 0 <= i < xs.len() ==> round_trips(#[trigger] codecs[i], xs[i]),
    ensures
        typed_read(codecs, typed_write(codecs, xs) + rest) == Some((xs, typed_write(codecs, xs).len())),
    decreases codecs.len(),
{
    if codecs.len() > 0 {
        let w0 = (codecs[0].write)(xs[0]);
        let ct = codecs.skip(1);
        let tail = xs.skip(1);
        let wt = typed_write(ct, tail);
        assert forall|i: int| 0 <= i < tail.len() implies round_trips(#[trigger] ct[i], tail[i]) by {
            assert(ct[i] == codecs[i + 1]);
            assert(tail[i] == xs[i + 1]);
        }
        lemma_typed_round_trip(ct, tail, rest);
        let bytes = typed_write(codecs, xs) + rest;
        assert(bytes =~= w0 + (wt + rest));
        assert(round_trips(codecs[0], xs[0]));
        assert((codecs[0].read)(w0 + (wt + rest)) == Some((xs[0], w0.len())));
        assert(bytes.skip(w0.len() as int) =~= wt + rest);
        assert(seq![xs[0]] + tail =~= xs);
    }
}

/// Reading a field back from what was written for it gives its value and
/// consumes exactly those bytes; a vector read up to the end needs nothing
/// after it.
pub proof fn lemma_field_round_trip(env: Env, f: Field, v: FieldValue, earlier: Seq<FieldValue>, rest: Seq<u8>)
    requires
        value_fits(env, f, v, earlier),
        reads_to_end(f) ==> rest.len() == 0,
    ensures
        field_read(env, f, earlier, field_write(env, f, v) + rest) == Some(
            (v, field_write(env, f, v).len()),
        ),
{
    let ctx = f.ctx_text();
    let bytes = field_write(env, f, v) + rest;
    if f.config.ignore {
    } else {
        match f.ty {
            TypeSyntax::Array { elem, len, .. } => {
                let xs = v->Many_0;
                assert(xs.take(count((env.constant)(len@)) as int) =~= xs);
                lemma_items_round_trip((env.codec)(elem.text(), ctx), xs, rest);
            },
            TypeSyntax::Path { path, tokens } => {
                if path_has_suffix(path, "Option"@) {
                    let o = v->Maybe_0;
                    let inner = (env.codec)(item_type_text(path), ctx);
                    let flag = flag_codec(env);
                    match f.config.parse_if {
                        Some(cond) => {
                            match o {
                                Some(x) => {
                                    let w = (inner.write)(x);
                                    assert(field_write(env, f, v) =~= w);
                                    assert(bytes.skip(0) =~= w + rest);
                                    assert((inner.read)(w + rest) == Some((x, w.len())));
                                },
                                None => {
                                    assert(field_write(env, f, v) =~= Seq::<u8>::empty());
                                },
                            }
                        },
                        None => {
                            match o {
                                Some(x) => {
                                    let w0 = (flag.write)(1);
                                    let w = (inner.write)(x);
                                    assert(field_write(env, f, v) == w0 + w);
                                    assert(bytes =~= w0 + (w + rest));
                                    assert((flag.read)(w0 + (w + rest)) == Some((1int, w0.len())));
                                    assert(bytes.skip(w0.len() as int) =~= w + rest);
                                    assert((inner.read)(w + rest) == Some((x, w.len())));
                                },
                                None => {
                                    let w0 = (flag.write)(0);
                                    assert(field_write(env, f, v) == w0);
                                    assert((flag.read)(w0 + rest) == Some((0int, w0.len())));
                                },
                            }
                        },
                    }
                } else if path_has_suffix(path, "Vec"@) {
                    let xs = v->Many_0;
                    let item = (env.codec)(item_type_text(path), ctx);
                    let wi = items_write(item, xs);
                    match f.config.len {
                        Some(len) => {
                            let lc = (env.codec)(len@, ctx);
                            let w0 = (lc.write)(xs.len() as int);
                            assert(field_write(env, f, v) == w0 + wi);
                            assert(bytes =~= w0 + (wi + rest));
                            assert((lc.read)(w0 + (wi + rest)) == Some((xs.len() as int, w0.len())));
                            assert(bytes.skip(w0.len() as int) =~= wi + rest);
                            lemma_items_round_trip(item, xs, rest);
                            assert(count(xs.len() as int) == xs.len());
                        },
                        None => {
                            assert(field_write(env, f, v) =~= wi);
                            assert(rest.len() == 0);
                            assert(bytes =~= wi);
                            lemma_items_read_all(item, xs);
                        },
                    }
                } else {
                    let x = v->Single_0;
                    let c = (env.codec)(tokens@, ctx);
                    assert((c.read)((c.write)(x) + rest) == Some((x, (c.write)(x).len())));
                }
            },
            TypeSyntax::Tuple { elems, .. } => {
                let xs = v->Many_0;
                let codecs = elems@.map_values(|e: TypeSyntax| (env.codec)(e.text(), ctx));
                assert forall|i: int| 0 <= i < xs.len() implies round_trips(#[trigger] codecs[i], xs[i]) by {
                    assert(codecs[i] == (env.codec)(elems@[i].text(), ctx));
                }
                lemma_typed_round_trip(codecs, xs, rest);
            },
            TypeSyntax::Other { .. } => {},
        }
    }
}

/// What the writes of `fields` do: the bytes of `values`, field after field.
pub open spec fn fields_write(env: Env, fields: Seq<Field>, values: Seq<FieldValue>) -> Seq<u8>
    decreases fields.len(),
{
    if fields.len() == 0 {
        Seq::empty()
    } else {
        field_write(env, fields[0], values[0]) + fields_write(env, fields.skip(1), values.skip(1))
    }
}

/// What the reads of `fields` do: the values read field after field, each
/// after the fields `earlier` and those read before it, and the bytes consumed.
pub open spec fn fields_read(env: Env, fields: Seq<Field>, earlier: Seq<FieldValue>, bytes: Seq<u8>) -> Option<(Seq<FieldValue>, nat)>
    decreases fields.len(),
{
    if fields.len() == 0 {
        Some((Seq::empty(), 0))
    } else {
        match field_read(env, fields[0], earlier, bytes) {
            Some((v, k)) => match fields_read(env, fields.skip(1), earlier.push(v), bytes.skip(k as int)) {
                Some((vs, m)) => Some((seq![v] + vs, k + m)),
                None => None,
            },
            None => None,
        }
    }
}

/// Whether `values` of `fields`, after the fields `earlier`, read back as
/// written: each value fits its field, and only the last field may read up to
/// the end.
pub open spec fn values_fit(env: Env, fields: Seq<Field>, values: Seq<FieldValue>, earlier: Seq<FieldValue>) -> bool {
    &&& values.len() == fields.len()
    &&& forall|i: int|
        0 <= i < fields.len() ==> value_fits(env, #[trigger] fields[i], values[i], earlier + values.take(i))
    &&& forall|i: int| 0 <= i < fields.len() && reads_to_end(#[trigger] fields[i]) ==> i == fields.len() - 1
}

/// Whether one of `fields` reads up to the end of the bytes.
pub open spec fn some_reads_to_end(fields: Seq<Field>) -> bool {
    exists|i: int| 0 <= i < fields.len() && reads_to_end(#[trigger] fields[i])
}

/// The reads of a list of fields give back what their writes wrote, and
/// consume exactly those bytes: the round trip, field list by field list.
pub proof fn law_fields_round_trip(env: Env, fields: Seq<Field>, values: Seq<FieldValue>, earlier: Seq<FieldValue>, rest: Seq<u8>)
    requires
        values_fit(env, fields, values, earlier),
        some_reads_to_end(fields) ==> rest.len() == 0,
    ensures
        fields_read(env, fields, earlier, fields_write(env, fields, values) + rest) == Some(
            (values, fields_write(env, fields, values).len()),
        ),
    decreases fields.len(),
{
    if fields.len() > 0 {
        let f0 = fields[0];
        let v0 = values[0];
        let ft = fields.skip(1);
        let vt = values.skip(1);
        let w0 = field_write(env, f0, v0);
        let wt = fields_write(env, ft, vt);
        let e1 = earlier.push(v0);
        assert(values.take(0) =~= Seq::<FieldValue>::empty());
        assert(earlier + values.take(0) =~= earlier);
        assert(value_fits(env, fields[0], values[0], earlier + values.take(0)));
        assert forall|i: int| 0 <= i < ft.len() implies value_fits(env, #[trigger] ft[i], vt[i], e1 + vt.take(i)) by {
            assert(ft[i] == fields[i + 1]);
            assert(vt[i] == values[i + 1]);
            assert(e1 + vt.take(i) =~= earlier + values.take(i + 1));
            assert(value_fits(env, fields[i + 1], values[i + 1], earlier + values.take(i + 1)));
        }
        assert forall|i: int| 0 <= i < ft.len() && reads_to_end(#[trigger] ft[i]) implies i == ft.len() - 1 by {
            assert(ft[i] == fields[i + 1]);
        }
        if some_reads_to_end(ft) {
            let i = choose|i: int| 0 <= i < ft.len() && reads_to_end(#[trigger] ft[i]);
            assert(ft[i] == fields[i + 1]);
        }
        law_fields_round_trip(env, ft, vt, e1, rest);
        if reads_to_end(f0) {
            assert(ft.len() == 0);
            assert(rest.len() == 0);
            assert(wt =~= Seq::<u8>::empty());
        }
        lemma_field_round_trip(env, f0, v0, earlier, wt + rest);
        let bytes = fields_write(env, fields, values) + rest;
        assert(bytes =~= w0 + (wt + rest));
        assert(bytes.skip(w0.len() as int) =~= wt + rest);
        assert(seq![v0] + vt =~= values);
    }
}

/// The round trip of a derived struct: its generated `TryRead` impl reads
/// back from what its `TryWrite` impl wrote the same field values, and
/// consumes exactly the bytes written; when its last field is a vector read
/// up to the end, nothing may follow those bytes.
pub proof fn law_struct_round_trip(env: Env, def: StructDef, values: Seq<FieldValue>, rest: Seq<u8>)
    requires
        values_fit(env, def.field_seq(), values, Seq::empty()),
        some_reads_to_end(def.field_seq()) ==> rest.len() == 0,
    ensures
        fields_read(env, def.field_seq(), Seq::empty(), fields_write(env, def.field_seq(), values) + rest)
            == Some((values, fields_write(env, def.field_seq(), values).len())),
{
    law_fields_round_trip(env, def.field_seq(), values, Seq::empty(), rest);
}

/// The codec of the tag of the enum `def`: its `repr` type, little endian.
pub open spec fn tag_codec(env: Env, def: EnumDef) -> Codec {
    (env.codec)(def.repr_ty@, "byte::LE"@)
}

/// The position of the first of `variants` whose discriminant is `tag`: the
/// match arm the generated read takes.
pub open spec fn first_arm(env: Env, variants: Seq<EnumVariant>, tag: int) -> Option<int>
    decreases variants.len(),
{
    if variants.len() == 0 {
        None
    } else if (env.constant)(variants[0].discriminant@) == tag {
        Some(0)
    } else {
        match first_arm(env, variants.skip(1), tag) {
            Some(j) => Some(j + 1),
            None => None,
        }
    }
}

/// What the generated `TryWrite` impl of the enum `def` writes for its
/// variant at position `j` holding `values`: the tag, unless `no_tag`, then
/// the fields.
pub open spec fn variant_write(env: Env, def: EnumDef, j: int, values: Seq<FieldValue>) -> Seq<u8> {
    let v = def.variants@[j];
    (if def.no_tag {
        Seq::empty()
    } else {
        (tag_codec(env, def).write)((env.constant)(v.discriminant@))
    }) + fields_write(env, v.field_seq(), values)
}

/// What the generated `TryRead` impl of the enum `def` that reads the tag
/// does: the position of the variant read, its field values, and the bytes
/// consumed.
pub open spec fn enum_read(env: Env, def: EnumDef, bytes: Seq<u8>) -> Option<((int, Seq<FieldValue>), nat)> {
    match (tag_codec(env, def).read)(bytes) {
        Some((tag, k)) => match first_arm(env, def.variants@, tag) {
            Some(j) => match fields_read(
                env,
                def.variants@[j].field_seq(),
                Seq::empty(),
                bytes.skip(k as int),
            ) {
                Some((vs, m)) => Some(((j, vs), k + m)),
                None => None,
            },
            None => None,
        },
        None => None,
    }
}

proof fn lemma_first_arm(env: Env, variants: Seq<EnumVariant>, j: int)
    requires
        0 <= j < variants.len(),
        forall|i: int|
            0 <= i < j ==> (env.constant)((#[trigger] variants[i]).discriminant@) != (env.constant)(
                variants[j].discriminant@,
            ),
    ensures
        first_arm(env, variants, (env.constant)(variants[j].discriminant@)) == Some(j),
    decreases j,
{
    if j > 0 {
        let tail = variants.skip(1);
        assert forall|i: int|
            0 <= i < j - 1 implies (env.constant)((#[trigger] tail[i]).discriminant@) != (env.constant)(
            tail[j - 1].discriminant@,
        ) by {
            assert(tail[i] == variants[i + 1]);
        }
        assert(tail[j - 1] == variants[j]);
        lemma_first_arm(env, tail, j - 1);
        assert((env.constant)(variants[0].discriminant@) != (env.constant)(variants[j].discriminant@));
    }
}

/// The round trip of a derived enum that writes its tag: its generated
/// `TryRead` impl reads back from what its `TryWrite` impl wrote the same
/// variant with the same field values, and consumes exactly the bytes
/// written, when the tag type reads back the variant's discriminant and no
/// variant before it has the same discriminant.
pub proof fn law_enum_round_trip(env: Env, def: EnumDef, j: int, values: Seq<FieldValue>, rest: Seq<u8>)
    requires
        !def.no_tag,
        0 <= j < def.variants@.len(),
        round_trips(tag_codec(env, def), (env.constant)(def.variants@[j].discriminant@)),
        forall|i: int|
            0 <= i < j ==> (env.constant)((#[trigger] def.variants@[i]).discriminant@) != (env.constant)(
                def.variants@[j].discriminant@,
            ),
        values_fit(env, def.variants@[j].field_seq(), values, Seq::empty()),
        some_reads_to_end(def.variants@[j].field_seq()) ==> rest.len() == 0,
    ensures
        enum_read(env, def, variant_write(env, def, j, values) + rest) == Some(
            ((j, values), variant_write(env, def, j, values).len()),
        ),
{
    let v = def.variants@[j];
    let tag = (env.constant)(v.discriminant@);
    let tc = tag_codec(env, def);
    let w0 = (tc.write)(tag);
    let wf = fields_write(env, v.field_seq(), values);
    law_fields_round_trip(env, v.field_seq(), values, Seq::empty(), rest);
    lemma_first_arm(env, def.variants@, j);
    let bytes = variant_write(env, def, j, values) + rest;
    assert(bytes =~= w0 + (wf + rest));
    assert((tc.read)(w0 + (wf + rest)) == Some((tag, w0.len())));
    assert(bytes.skip(w0.len() as int) =~= wf + rest);
}

} // verus!
