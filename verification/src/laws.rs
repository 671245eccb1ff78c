//! Laws of binding and loading, each proved from the definitions.

use crate::dotenv::{lemma_preload_keeps, lemma_preload_twice, preloaded, Preload};
use crate::error::{CfgErrorView, ParseCause};
use crate::field::{list_binding, scalar_binding, source_text, Rule};
use crate::number::{int_parsed, lemma_int_parsed_in_range};
use crate::parse::{kept_items, list_items, list_result, scalar_result};
use crate::scalar::Scalar;
use crate::schema::{
    field_binding, fields_binding, first_loaded, lemma_first_failure_stays, loaded, FieldKind,
    FieldSpec, Schema,
};
use crate::tagged::{list_field, scalar_field, ScalarType};
use crate::text::{
    find_from, is_blank, is_whitespace, lemma_trim_start, occurs_at, split, trim_end, trim_start,
    trimmed,
};
use crate::value::ValueView;
use vstd::prelude::*;

verus! {

/// A text of nothing but white space is empty once trimmed.
pub proof fn lemma_blank_trims_to_nothing(s: Seq<char>)
    requires
        is_blank(s),
    ensures
        trimmed(s).len() == 0,
{
    lemma_trim_start(s, s.len() as int);
}

/// Trimming at the back leaves a text that holds a character other than
/// white space non-empty.
proof fn lemma_trim_end_leaves(s: Seq<char>, at: int)
    requires
        0 <= at < s.len(),
        !is_whitespace(s[at]),
    ensures
        trim_end(s).len() > at,
    decreases s.len(),
{
    if is_whitespace(s.last()) {
        lemma_trim_end_leaves(s.drop_last(), at);
    }
}

/// A text that holds a character other than white space is not empty
/// once trimmed.
pub proof fn lemma_not_blank_trims_to_something(s: Seq<char>)
    requires
        !is_blank(s),
    ensures
        trimmed(s).len() > 0,
    decreases s.len(),
{
    if s.len() > 0 && is_whitespace(s[0]) {
        let t = s.skip(1);
        if is_blank(t) {
            assert forall|i: int| 0 <= i < s.len() implies is_whitespace(#[trigger] s[i]) by {
                if i > 0 {
                    assert(s[i] == t[i - 1]);
                }
            }
        }
        lemma_not_blank_trims_to_something(t);
    } else {
        lemma_trim_end_leaves(s, 0);
    }
}

/// The value that an integer type reads from a text is the number that
/// the text writes: no type cuts a number down to fit.
pub proof fn law_integer_is_the_number_written(raw: Seq<char>)
    ensures
        <u8 as Scalar>::parsed(raw) matches Ok(v) ==> int_parsed(raw, false, 0, u8::MAX as int)
            == Ok::<int, ParseCause>(v as int),
        <u16 as Scalar>::parsed(raw) matches Ok(v) ==> int_parsed(raw, false, 0, u16::MAX as int)
            == Ok::<int, ParseCause>(v as int),
        <u32 as Scalar>::parsed(raw) matches Ok(v) ==> int_parsed(raw, false, 0, u32::MAX as int)
            == Ok::<int, ParseCause>(v as int),
        <u64 as Scalar>::parsed(raw) matches Ok(v) ==> int_parsed(raw, false, 0, u64::MAX as int)
            == Ok::<int, ParseCause>(v as int),
        <u128 as Scalar>::parsed(raw) matches Ok(v) ==> int_parsed(raw, false, 0, u128::MAX as int)
            == Ok::<int, ParseCause>(v as int),
        <usize as Scalar>::parsed(raw) matches Ok(v) ==> int_parsed(raw, false, 0, usize::MAX as int)
            == Ok::<int, ParseCause>(v as int),
        <i8 as Scalar>::parsed(raw) matches Ok(v) ==> int_parsed(
            raw,
            true,
            i8::MIN as int,
            i8::MAX as int,
        ) == Ok::<int, ParseCause>(v as int),
        <i16 as Scalar>::parsed(raw) matches Ok(v) ==> int_parsed(
            raw,
            true,
            i16::MIN as int,
            i16::MAX as int,
        ) == Ok::<int, ParseCause>(v as int),
        <i32 as Scalar>::parsed(raw) matches Ok(v) ==> int_parsed(
            raw,
            true,
            i32::MIN as int,
            i32::MAX as int,
        ) == Ok::<int, ParseCause>(v as int),
        <i64 as Scalar>::parsed(raw) matches Ok(v) ==> int_parsed(
            raw,
            true,
            i64::MIN as int,
            i64::MAX as int,
        ) == Ok::<int, ParseCause>(v as int),
        <i128 as Scalar>::parsed(raw) matches Ok(v) ==> int_parsed(
            raw,
            true,
            i128::MIN as int,
            i128::MAX as int,
        ) == Ok::<int, ParseCause>(v as int),
        <isize as Scalar>::parsed(raw) matches Ok(v) ==> int_parsed(
            raw,
            true,
            isize::MIN as int,
            isize::MAX as int,
        ) == Ok::<int, ParseCause>(v as int),
{
    if int_parsed(raw, false, 0, u8::MAX as int) is Ok {
        lemma_int_parsed_in_range(raw, false, 0, u8::MAX as int);
    }
    if int_parsed(raw, false, 0, u16::MAX as int) is Ok {
        lemma_int_parsed_in_range(raw, false, 0, u16::MAX as int);
    }
    if int_parsed(raw, false, 0, u32::MAX as int) is Ok {
        lemma_int_parsed_in_range(raw, false, 0, u32::MAX as int);
    }
    if int_parsed(raw, false, 0, u64::MAX as int) is Ok {
        lemma_int_parsed_in_range(raw, false, 0, u64::MAX as int);
    }
    if int_parsed(raw, false, 0, u128::MAX as int) is Ok {
        lemma_int_parsed_in_range(raw, false, 0, u128::MAX as int);
    }
    if int_parsed(raw, false, 0, usize::MAX as int) is Ok {
        lemma_int_parsed_in_range(raw, false, 0, usize::MAX as int);
    }
    if int_parsed(raw, true, i8::MIN as int, i8::MAX as int) is Ok {
        lemma_int_parsed_in_range(raw, true, i8::MIN as int, i8::MAX as int);
    }
    if int_parsed(raw, true, i16::MIN as int, i16::MAX as int) is Ok {
        lemma_int_parsed_in_range(raw, true, i16::MIN as int, i16::MAX as int);
    }
    if int_parsed(raw, true, i32::MIN as int, i32::MAX as int) is Ok {
        lemma_int_parsed_in_range(raw, true, i32::MIN as int, i32::MAX as int);
    }
    if int_parsed(raw, true, i64::MIN as int, i64::MAX as int) is Ok {
        lemma_int_parsed_in_range(raw, true, i64::MIN as int, i64::MAX as int);
    }
    if int_parsed(raw, true, i128::MIN as int, i128::MAX as int) is Ok {
        lemma_int_parsed_in_range(raw, true, i128::MIN as int, i128::MAX as int);
    }
    if int_parsed(raw, true, isize::MIN as int, isize::MAX as int) is Ok {
        lemma_int_parsed_in_range(raw, true, isize::MIN as int, isize::MAX as int);
    }
}

/// A scalar field whose key holds more than white space is bound to what
/// its type reads from that text: the value, or the parse error.
pub proof fn law_source_text_is_parsed<T: Scalar>(env: Map<Seq<char>, Seq<char>>, rule: Rule)
    requires
        env.contains_key(rule.key@),
        !is_blank(env[rule.key@]),
    ensures
        scalar_binding::<T>(env, rule) == scalar_result::<T>(rule.key@, env[rule.key@]),
        T::parsed(env[rule.key@]) matches Ok(v) ==> scalar_binding::<T>(env, rule) == Ok::<
            T::V,
            CfgErrorView,
        >(v),
{
    lemma_not_blank_trims_to_something(env[rule.key@]);
}

/// A required field without default whose key is unset, or holds nothing
/// but white space, is missing: the error carries the key. This holds of
/// a scalar field and of a list field, of whatever type.
pub proof fn law_required_is_missing<T: Scalar>(env: Map<Seq<char>, Seq<char>>, rule: Rule)
    requires
        rule.required,
        rule.default is None,
        !env.contains_key(rule.key@) || is_blank(env[rule.key@]),
    ensures
        scalar_binding::<T>(env, rule) == Err::<T::V, CfgErrorView>(
            CfgErrorView::MissingEnv(rule.key@),
        ),
        list_binding::<T>(env, rule) == Err::<Seq<T::V>, CfgErrorView>(
            CfgErrorView::MissingEnv(rule.key@),
        ),
{
    if env.contains_key(rule.key@) {
        lemma_blank_trims_to_nothing(env[rule.key@]);
    }
}

/// The same of a field whose type is named at run time.
pub proof fn law_required_field_is_missing(
    env: Map<Seq<char>, Seq<char>>,
    ty: ScalarType,
    rule: Rule,
)
    requires
        rule.required,
        rule.default is None,
        !env.contains_key(rule.key@) || is_blank(env[rule.key@]),
    ensures
        scalar_field(env, ty, rule) == Err::<ValueView, CfgErrorView>(
            CfgErrorView::MissingEnv(rule.key@),
        ),
        list_field(env, ty, rule) == Err::<ValueView, CfgErrorView>(
            CfgErrorView::MissingEnv(rule.key@),
        ),
{
    if env.contains_key(rule.key@) {
        lemma_blank_trims_to_nothing(env[rule.key@]);
    }
}

/// A field with a default whose key is unset, or holds nothing but white
/// space, is bound to what its type reads from the default. A default
/// that is no value of the type is a parse error, and a default stands
/// in for a required field too.
pub proof fn law_default_is_parsed<T: Scalar>(env: Map<Seq<char>, Seq<char>>, rule: Rule)
    requires
        rule.default is Some,
        !env.contains_key(rule.key@) || is_blank(env[rule.key@]),
    ensures
        scalar_binding::<T>(env, rule) == scalar_result::<T>(rule.key@, rule.default->0@),
        list_binding::<T>(env, rule) == list_result::<T>(
            rule.key@,
            rule.default->0@,
            rule.delimiter@,
        ),
{
    if env.contains_key(rule.key@) {
        lemma_blank_trims_to_nothing(env[rule.key@]);
    }
}

/// With an empty delimiter every text is the empty list.
pub proof fn law_empty_delimiter<T: Scalar>(key: Seq<char>, raw: Seq<char>)
    ensures
        list_items(raw, Seq::empty()) == Seq::<Seq<char>>::empty(),
        list_result::<T>(key, raw, Seq::empty()) == Ok::<Seq<T::V>, CfgErrorView>(Seq::empty()),
{
}

/// The first field that fails decides the outcome of a schema: its
/// error is the schema's, whatever the fields after it would give.
pub proof fn law_first_failure_decides(
    env: Map<Seq<char>, Seq<char>>,
    fields: Seq<FieldSpec>,
    at: int,
)
    requires
        0 <= at < fields.len(),
        fields_binding(env, fields.take(at)) is Ok,
        field_binding(env, fields[at]) is Err,
    ensures
        fields_binding(env, fields) == Err::<Seq<(Seq<char>, ValueView)>, CfgErrorView>(
            field_binding(env, fields[at])->Err_0,
        ),
{
    assert(fields.take(at + 1).drop_last() =~= fields.take(at));
    lemma_first_failure_stays(env, fields, at + 1);
}

/// A schema with a required field without default whose key is unset or
/// blank fails with the missing key of that field, provided the fields
/// before it are bound.
pub proof fn law_missing_field_fails_schema(
    env: Map<Seq<char>, Seq<char>>,
    schema: Schema,
    at: int,
    ty: ScalarType,
    rule: Rule,
)
    requires
        0 <= at < schema.fields.len(),
        schema.fields[at].kind == FieldKind::Scalar(ty, rule) || schema.fields[at].kind
            == FieldKind::List(ty, rule),
        rule.required,
        rule.default is None,
        !env.contains_key(rule.key@) || is_blank(env[rule.key@]),
        fields_binding(env, schema.fields@.take(at)) is Ok,
    ensures
        fields_binding(env, schema.fields@) == Err::<Seq<(Seq<char>, ValueView)>, CfgErrorView>(
            CfgErrorView::MissingEnv(rule.key@),
        ),
{
    law_required_field_is_missing(env, ty, rule);
    law_first_failure_decides(env, schema.fields@, at);
}

/// The error of a nested field is the error of the field inside it
/// that failed, unchanged: a missing key deep inside is reported under
/// its own name.
pub proof fn law_nested_error_is_inner(env: Map<Seq<char>, Seq<char>>, field: FieldSpec)
    requires
        field.kind is Nested,
        fields_binding(env, field.kind->Nested_0.fields@) is Err,
    ensures
        field_binding(env, field) == Err::<ValueView, CfgErrorView>(
            fields_binding(env, field.kind->Nested_0.fields@)->Err_0,
        ),
{
}

/// A load that follows a load of the same file finds the environment as
/// the first one left it and gives what the first one gave.
pub proof fn law_load_twice(env: Map<Seq<char>, Seq<char>>, schema: Schema, file: Preload)
    ensures
        preloaded(preloaded(env, file), file) == preloaded(env, file),
        loaded(preloaded(env, file), schema, file) == loaded(env, schema, file),
{
    lemma_preload_twice(env, file);
}

/// Where the load fails with the first of two candidates and goes
/// through with the second, the second decides: its configuration is the
/// outcome, bound in the environment that the first candidate left.
pub proof fn law_falls_back_to_next(
    env: Map<Seq<char>, Seq<char>>,
    schema: Schema,
    first: Preload,
    second: Preload,
)
    requires
        loaded(env, schema, first) is Err,
        loaded(preloaded(env, first), schema, second) is Ok,
    ensures
        first_loaded(env, schema, seq![first, second], None) == loaded(
            preloaded(env, first),
            schema,
            second,
        ),
{
    reveal_with_fuel(first_loaded, 3);
}

/// A file does not override: a field whose key has a value before a
/// file is merged is bound after the merge as it was before.
pub proof fn law_file_does_not_override<T: Scalar>(
    env: Map<Seq<char>, Seq<char>>,
    file: Preload,
    rule: Rule,
)
    requires
        env.contains_key(rule.key@),
    ensures
        preloaded(env, file).contains_key(rule.key@),
        preloaded(env, file)[rule.key@] == env[rule.key@],
        scalar_binding::<T>(preloaded(env, file), rule) == scalar_binding::<T>(env, rule),
        list_binding::<T>(preloaded(env, file), rule) == list_binding::<T>(env, rule),
{
    lemma_preload_keeps(env, file);
}

/// Whether `sep` occurs nowhere in `s`.
pub open spec fn free_of(s: Seq<char>, sep: Seq<char>) -> bool {
    forall|at: int| !occurs_at(s, sep, at)
}

/// Whether `s` is an item as a list yields it: not empty, without white
/// space at either end, and free of the delimiter.
pub open spec fn is_item(s: Seq<char>, sep: Seq<char>) -> bool {
    s.len() > 0 && !is_whitespace(s[0]) && !is_whitespace(s.last()) && free_of(s, sep)
}

/// Where the text without its leading white space begins.
proof fn lemma_trim_start_shape(s: Seq<char>) -> (a: int)
    ensures
        0 <= a <= s.len(),
        trim_start(s) == s.skip(a),
        a < s.len() ==> !is_whitespace(s[a]),
    decreases s.len(),
{
    if s.len() > 0 && is_whitespace(s[0]) {
        lemma_trim_start_shape(s.skip(1)) + 1
    } else {
        0
    }
}

/// Where the text without its trailing white space ends.
proof fn lemma_trim_end_shape(s: Seq<char>) -> (b: int)
    ensures
        0 <= b <= s.len(),
        trim_end(s) == s.take(b),
        b > 0 ==> !is_whitespace(s[b - 1]),
    decreases s.len(),
{
    if s.len() > 0 && is_whitespace(s.last()) {
        lemma_trim_end_shape(s.drop_last())
    } else {
        s.len() as int
    }
}

/// A search that finds nothing has nothing to find, and one that finds an
/// occurrence has passed none.
proof fn lemma_find_is_leftmost(s: Seq<char>, sep: Seq<char>, from: int)
    requires
        0 <= from,
    ensures
        match find_from(s, sep, from) {
            Some(at) => from <= at && occurs_at(s, sep, at) && forall|p: int|
                from <= p < at ==> !occurs_at(s, sep, p),
            None => forall|p: int| from <= p ==> !occurs_at(s, sep, p),
        },
    decreases s.len() - from + 1,
{
    if from + sep.len() <= s.len() && !occurs_at(s, sep, from) {
        lemma_find_is_leftmost(s, sep, from + 1);
    }
}

/// What does not occur in a text occurs in no part of it.
proof fn lemma_part_is_free(s: Seq<char>, sep: Seq<char>, a: int, b: int)
    requires
        0 <= a <= b <= s.len(),
        free_of(s, sep),
    ensures
        free_of(s.subrange(a, b), sep),
{
    let t = s.subrange(a, b);
    assert forall|at: int| !occurs_at(t, sep, at) by {
        if occurs_at(t, sep, at) {
            assert(s.subrange(a + at, a + at + sep.len()) =~= t.subrange(at, at + sep.len()));
            assert(occurs_at(s, sep, a + at));
        }
    }
}

/// The pieces between the occurrences of a delimiter are free of it.
pub proof fn lemma_pieces_are_free(s: Seq<char>, sep: Seq<char>)
    requires
        sep.len() > 0,
    ensures
        forall|i: int| 0 <= i < split(s, sep).len() ==> free_of(#[trigger] split(s, sep)[i], sep),
    decreases s.len(),
{
    lemma_find_is_leftmost(s, sep, 0);
    match find_from(s, sep, 0) {
        Some(at) => {
            let head = s.take(at);
            let rest = split(s.skip(at + sep.len()), sep);
            lemma_pieces_are_free(s.skip(at + sep.len()), sep);
            assert forall|p: int| !occurs_at(head, sep, p) by {
                if occurs_at(head, sep, p) {
                    assert(s.subrange(p, p + sep.len()) =~= head.subrange(p, p + sep.len()));
                    assert(occurs_at(s, sep, p));
                }
            }
            assert forall|i: int| 0 <= i < split(s, sep).len() implies free_of(
                #[trigger] split(s, sep)[i],
                sep,
            ) by {
                if i > 0 {
                    assert(split(s, sep)[i] == rest[i - 1]);
                }
            }
        },
        None => {},
    }
}

/// A text that is free of the delimiter and not blank trims to an item.
proof fn lemma_trimmed_is_item(s: Seq<char>, sep: Seq<char>)
    requires
        free_of(s, sep),
        trimmed(s).len() > 0,
    ensures
        is_item(trimmed(s), sep),
{
    let a = lemma_trim_start_shape(s);
    let t = s.skip(a);
    let b = lemma_trim_end_shape(t);
    assert(t.take(b) =~= s.subrange(a, a + b));
    lemma_part_is_free(s, sep, a, a + b);
}

/// The items among parts that are free of the delimiter are items.
proof fn lemma_kept_are_items(parts: Seq<Seq<char>>, sep: Seq<char>)
    requires
        forall|j: int| 0 <= j < parts.len() ==> free_of(#[trigger] parts[j], sep),
    ensures
        forall|i: int|
            0 <= i < kept_items(parts).len() ==> is_item(#[trigger] kept_items(parts)[i], sep),
    decreases parts.len(),
{
    if parts.len() > 0 {
        let before = parts.drop_last();
        assert forall|j: int| 0 <= j < before.len() implies free_of(#[trigger] before[j], sep) by {
            assert(before[j] == parts[j]);
        }
        lemma_kept_are_items(before, sep);
        if trimmed(parts.last()).len() > 0 {
            lemma_trimmed_is_item(parts.last(), sep);
        }
        assert forall|i: int| 0 <= i < kept_items(parts).len() implies is_item(
            #[trigger] kept_items(parts)[i],
            sep,
        ) by {
            if i < kept_items(before).len() {
                assert(kept_items(parts)[i] == kept_items(before)[i]);
            }
        }
    }
}

/// Every item of a list is a text of its own: not empty, without white
/// space at either end, and free of the delimiter.
pub proof fn law_items_are_clean(raw: Seq<char>, sep: Seq<char>)
    ensures
        forall|i: int|
            0 <= i < list_items(raw, sep).len() ==> is_item(
                #[trigger] list_items(raw, sep)[i],
                sep,
            ),
{
    if sep.len() > 0 {
        lemma_pieces_are_free(raw, sep);
        lemma_kept_are_items(split(raw, sep), sep);
    }
}

} // verus!
