//! What holds of the code that declarations expand to.
use vstd::prelude::*;
use vstd::seq_lib::lemma_flatten_concat;

use crate::config::elements::sanitized;
use crate::derive::choices::{first_with_fields, value_codes, VariantDecl};
use crate::derive::fields::{
    attrs_of, bound_code, count_code, flag_code, no_attrs, number_code, text_call, with_option,
    BoundLit, FieldAttrs, FieldDecl, OptionValue, TypeDesc,
};
use crate::derive::log_on::{
    argument_start, as_numbers, comma, comma_pieces, deadband_of, is_named, kind_of_trigger,
    list_items, log_on_of, spec_views, tok_text, toks_text, trigger_code, trigger_of, triggers_of,
    value_start, with_arguments, SpecView, Tok,
};
use crate::derive::names::{comment_text, key_mark, spaced, titled};
use crate::derive::structs::{
    blocks, config_code, each_field, loads, object_code, schema_title, ui_code, StructDecl,
};
use crate::derive::tags::{
    fields_code, fitted, kind_of_type, tag_attrs_of, tags_code, trigger_codes, with_tag_option,
    TagAttrsView, TagField, TagValueTokens, TagsCode, NEEDS_TAG,
};
use crate::text::{debug_text, decimal, decimal_int, joined, opt_chars};

verus! {

// ---- options of fields --------------------------------------------------------------------

proof fn lemma_option_names()
    ensures
        "title"@ != "name"@,
        "title"@ != "item_title"@,
        "title"@ != "format"@,
        "title"@ != "pattern"@,
        "title"@ != "default"@,
        "title"@ != "hidden"@,
        "title"@ != "advanced"@,
        "title"@ != "deprecated"@,
        "title"@ != "min"@,
        "title"@ != "max"@,
        "title"@ != "multiple_of"@,
        "title"@ != "min_items"@,
        "title"@ != "max_items"@,
        "name"@ != "item_title"@,
        "name"@ != "format"@,
        "name"@ != "pattern"@,
        "name"@ != "default"@,
        "name"@ != "hidden"@,
        "name"@ != "advanced"@,
        "name"@ != "deprecated"@,
        "name"@ != "min"@,
        "name"@ != "max"@,
        "name"@ != "multiple_of"@,
        "name"@ != "min_items"@,
        "name"@ != "max_items"@,
        "item_title"@ != "format"@,
        "item_title"@ != "pattern"@,
        "item_title"@ != "default"@,
        "item_title"@ != "hidden"@,
        "item_title"@ != "advanced"@,
        "item_title"@ != "deprecated"@,
        "item_title"@ != "min"@,
        "item_title"@ != "max"@,
        "item_title"@ != "multiple_of"@,
        "item_title"@ != "min_items"@,
        "item_title"@ != "max_items"@,
        "format"@ != "pattern"@,
        "format"@ != "default"@,
        "format"@ != "hidden"@,
        "format"@ != "advanced"@,
        "format"@ != "deprecated"@,
        "format"@ != "min"@,
        "format"@ != "max"@,
        "format"@ != "multiple_of"@,
        "format"@ != "min_items"@,
        "format"@ != "max_items"@,
        "pattern"@ != "default"@,
        "pattern"@ != "hidden"@,
        "pattern"@ != "advanced"@,
        "pattern"@ != "deprecated"@,
        "pattern"@ != "min"@,
        "pattern"@ != "max"@,
        "pattern"@ != "multiple_of"@,
        "pattern"@ != "min_items"@,
        "pattern"@ != "max_items"@,
        "default"@ != "hidden"@,
        "default"@ != "advanced"@,
        "default"@ != "deprecated"@,
        "default"@ != "min"@,
        "default"@ != "max"@,
        "default"@ != "multiple_of"@,
        "default"@ != "min_items"@,
        "default"@ != "max_items"@,
        "hidden"@ != "advanced"@,
        "hidden"@ != "deprecated"@,
        "hidden"@ != "min"@,
        "hidden"@ != "max"@,
        "hidden"@ != "multiple_of"@,
        "hidden"@ != "min_items"@,
        "hidden"@ != "max_items"@,
        "advanced"@ != "deprecated"@,
        "advanced"@ != "min"@,
        "advanced"@ != "max"@,
        "advanced"@ != "multiple_of"@,
        "advanced"@ != "min_items"@,
        "advanced"@ != "max_items"@,
        "deprecated"@ != "min"@,
        "deprecated"@ != "max"@,
        "deprecated"@ != "multiple_of"@,
        "deprecated"@ != "min_items"@,
        "deprecated"@ != "max_items"@,
        "min"@ != "max"@,
        "min"@ != "multiple_of"@,
        "min"@ != "min_items"@,
        "min"@ != "max_items"@,
        "max"@ != "multiple_of"@,
        "max"@ != "min_items"@,
        "max"@ != "max_items"@,
        "multiple_of"@ != "min_items"@,
        "multiple_of"@ != "max_items"@,
        "min_items"@ != "max_items"@,
{
    reveal_strlit("title");
    reveal_strlit("name");
    reveal_strlit("item_title");
    reveal_strlit("format");
    reveal_strlit("pattern");
    reveal_strlit("default");
    reveal_strlit("hidden");
    reveal_strlit("advanced");
    reveal_strlit("deprecated");
    reveal_strlit("min");
    reveal_strlit("max");
    reveal_strlit("multiple_of");
    reveal_strlit("min_items");
    reveal_strlit("max_items");
    assert("title"@.len() != "name"@.len());
    assert("title"@.len() != "item_title"@.len());
    assert("title"@.len() != "format"@.len());
    assert("title"@.len() != "pattern"@.len());
    assert("title"@.len() != "default"@.len());
    assert("title"@.len() != "hidden"@.len());
    assert("title"@.len() != "advanced"@.len());
    assert("title"@.len() != "deprecated"@.len());
    assert("title"@.len() != "min"@.len());
    assert("title"@.len() != "max"@.len());
    assert("title"@.len() != "multiple_of"@.len());
    assert("title"@.len() != "min_items"@.len());
    assert("title"@.len() != "max_items"@.len());
    assert("name"@.len() != "item_title"@.len());
    assert("name"@.len() != "format"@.len());
    assert("name"@.len() != "pattern"@.len());
    assert("name"@.len() != "default"@.len());
    assert("name"@.len() != "hidden"@.len());
    assert("name"@.len() != "advanced"@.len());
    assert("name"@.len() != "deprecated"@.len());
    assert("name"@.len() != "min"@.len());
    assert("name"@.len() != "max"@.len());
    assert("name"@.len() != "multiple_of"@.len());
    assert("name"@.len() != "min_items"@.len());
    assert("name"@.len() != "max_items"@.len());
    assert("item_title"@.len() != "format"@.len());
    assert("item_title"@.len() != "pattern"@.len());
    assert("item_title"@.len() != "default"@.len());
    assert("item_title"@.len() != "hidden"@.len());
    assert("item_title"@.len() != "advanced"@.len());
    assert("item_title"@[0] != "deprecated"@[0]);
    assert("item_title"@.len() != "min"@.len());
    assert("item_title"@.len() != "max"@.len());
    assert("item_title"@.len() != "multiple_of"@.len());
    assert("item_title"@.len() != "min_items"@.len());
    assert("item_title"@.len() != "max_items"@.len());
    assert("format"@.len() != "pattern"@.len());
    assert("format"@.len() != "default"@.len());
    assert("format"@[0] != "hidden"@[0]);
    assert("format"@.len() != "advanced"@.len());
    assert("format"@.len() != "deprecated"@.len());
    assert("format"@.len() != "min"@.len());
    assert("format"@.len() != "max"@.len());
    assert("format"@.len() != "multiple_of"@.len());
    assert("format"@.len() != "min_items"@.len());
    assert("format"@.len() != "max_items"@.len());
    assert("pattern"@[0] != "default"@[0]);
    assert("pattern"@.len() != "hidden"@.len());
    assert("pattern"@.len() != "advanced"@.len());
    assert("pattern"@.len() != "deprecated"@.len());
    assert("pattern"@.len() != "min"@.len());
    assert("pattern"@.len() != "max"@.len());
    assert("pattern"@.len() != "multiple_of"@.len());
    assert("pattern"@.len() != "min_items"@.len());
    assert("pattern"@.len() != "max_items"@.len());
    assert("default"@.len() != "hidden"@.len());
    assert("default"@.len() != "advanced"@.len());
    assert("default"@.len() != "deprecated"@.len());
    assert("default"@.len() != "min"@.len());
    assert("default"@.len() != "max"@.len());
    assert("default"@.len() != "multiple_of"@.len());
    assert("default"@.len() != "min_items"@.len());
    assert("default"@.len() != "max_items"@.len());
    assert("hidden"@.len() != "advanced"@.len());
    assert("hidden"@.len() != "deprecated"@.len());
    assert("hidden"@.len() != "min"@.len());
    assert("hidden"@.len() != "max"@.len());
    assert("hidden"@.len() != "multiple_of"@.len());
    assert("hidden"@.len() != "min_items"@.len());
    assert("hidden"@.len() != "max_items"@.len());
    assert("advanced"@.len() != "deprecated"@.len());
    assert("advanced"@.len() != "min"@.len());
    assert("advanced"@.len() != "max"@.len());
    assert("advanced"@.len() != "multiple_of"@.len());
    assert("advanced"@.len() != "min_items"@.len());
    assert("advanced"@.len() != "max_items"@.len());
    assert("deprecated"@.len() != "min"@.len());
    assert("deprecated"@.len() != "max"@.len());
    assert("deprecated"@.len() != "multiple_of"@.len());
    assert("deprecated"@.len() != "min_items"@.len());
    assert("deprecated"@.len() != "max_items"@.len());
    assert("min"@[1] != "max"@[1]);
    assert("min"@.len() != "multiple_of"@.len());
    assert("min"@.len() != "min_items"@.len());
    assert("min"@.len() != "max_items"@.len());
    assert("max"@.len() != "multiple_of"@.len());
    assert("max"@.len() != "min_items"@.len());
    assert("max"@.len() != "max_items"@.len());
    assert("multiple_of"@.len() != "min_items"@.len());
    assert("multiple_of"@.len() != "max_items"@.len());
    assert("min_items"@[1] != "max_items"@[1]);
}

/// An option sets the part of a declaration that has its name and keeps every other part.
pub proof fn law_options_set_their_part(a: FieldAttrs, t: String, l: BoundLit, n: u64)
    ensures
        with_option(a, "title"@, OptionValue::Text(t)) == Some(
            FieldAttrs { title: Some(t), ..a },
        ),
        with_option(a, "name"@, OptionValue::Text(t)) == Some(
            FieldAttrs { name: Some(t), ..a },
        ),
        with_option(a, "item_title"@, OptionValue::Text(t)) == Some(
            FieldAttrs { item_title: Some(t), ..a },
        ),
        with_option(a, "format"@, OptionValue::Text(t)) == Some(
            FieldAttrs { format: Some(t), ..a },
        ),
        with_option(a, "pattern"@, OptionValue::Text(t)) == Some(
            FieldAttrs { pattern: Some(t), ..a },
        ),
        with_option(a, "default"@, OptionValue::Expr(t)) == Some(
            FieldAttrs { default: Some(t), ..a },
        ),
        with_option(a, "hidden"@, OptionValue::Flag) == Some(FieldAttrs { hidden: true, ..a }),
        with_option(a, "advanced"@, OptionValue::Flag) == Some(FieldAttrs { advanced: true, ..a }),
        with_option(a, "deprecated"@, OptionValue::Flag) == Some(FieldAttrs { deprecated: true, ..a }),
        with_option(a, "min"@, OptionValue::Literal(l)) == Some(
            FieldAttrs { min: Some(l), ..a },
        ),
        with_option(a, "max"@, OptionValue::Literal(l)) == Some(
            FieldAttrs { max: Some(l), ..a },
        ),
        with_option(a, "multiple_of"@, OptionValue::Literal(l)) == Some(
            FieldAttrs { multiple_of: Some(l), ..a },
        ),
        with_option(a, "min_items"@, OptionValue::Count(n)) == Some(
            FieldAttrs { min_items: Some(n), ..a },
        ),
        with_option(a, "max_items"@, OptionValue::Count(n)) == Some(
            FieldAttrs { max_items: Some(n), ..a },
        ),
{
    lemma_option_names();
}

/// An option with another name is refused, and so is one with another kind of value.
pub proof fn law_other_options_are_refused(a: FieldAttrs, name: Seq<char>, v: OptionValue, t: String)
    ensures
        name != "title"@ && name != "name"@ && name != "item_title"@ && name != "format"@ && name != "pattern"@ && name != "default"@ && name != "hidden"@ && name != "advanced"@ && name != "deprecated"@ && name != "min"@ && name != "max"@ && name != "multiple_of"@ && name != "min_items"@ && name != "max_items"@ ==> with_option(a, name, v) is None,
        !(v is Text) ==> with_option(a, "title"@, v) is None,
        !(v is Text) ==> with_option(a, "name"@, v) is None,
        !(v is Text) ==> with_option(a, "item_title"@, v) is None,
        !(v is Text) ==> with_option(a, "format"@, v) is None,
        !(v is Text) ==> with_option(a, "pattern"@, v) is None,
        !(v is Expr) ==> with_option(a, "default"@, v) is None,
        !(v is Flag) ==> with_option(a, "hidden"@, v) is None,
        !(v is Flag) ==> with_option(a, "advanced"@, v) is None,
        !(v is Flag) ==> with_option(a, "deprecated"@, v) is None,
        !(v is Literal) ==> with_option(a, "min"@, v) is None,
        !(v is Literal) ==> with_option(a, "max"@, v) is None,
        !(v is Literal) ==> with_option(a, "multiple_of"@, v) is None,
        !(v is Count) ==> with_option(a, "min_items"@, v) is None,
        !(v is Count) ==> with_option(a, "max_items"@, v) is None,
{
    lemma_option_names();
}

/// A declaration is read exactly if each of its options is taken, whichever the others are.
pub proof fn law_declarations_take_every_option(list: Seq<(String, OptionValue)>)
    ensures
        attrs_of(list) is Ok <==> forall|i: int|
            0 <= i < list.len() ==> with_option(no_attrs(), (#[trigger] list[i]).0@, list[i].1)
                is Some,
    decreases list.len(),
{
    if list.len() > 0 {
        let d = list.drop_last();
        law_declarations_take_every_option(d);
        assert(forall|i: int| 0 <= i < d.len() ==> #[trigger] d[i] == list[i]);
        if let Ok(a) = attrs_of(d) {
            lemma_taken_alike(a, no_attrs(), list.last().0@, list.last().1);
        }
        if attrs_of(list) is Ok {
            assert forall|i: int| 0 <= i < list.len() implies with_option(
                no_attrs(),
                (#[trigger] list[i]).0@,
                list[i].1,
            ) is Some by {
                if i < d.len() {
                    let same = d[i];
                }
            }
        } else if forall|i: int|
            0 <= i < list.len() ==> with_option(no_attrs(), (#[trigger] list[i]).0@, list[i].1)
                is Some {
            let last = list[list.len() - 1];
            assert forall|i: int| 0 <= i < d.len() implies with_option(
                no_attrs(),
                (#[trigger] d[i]).0@,
                d[i].1,
            ) is Some by {
                let same = list[i];
            }
        }
    }
}

proof fn lemma_taken_alike(a: FieldAttrs, b: FieldAttrs, name: Seq<char>, v: OptionValue)
    ensures
        with_option(a, name, v) is Some <==> with_option(b, name, v) is Some,
{
}

/// Of the options of one name the last counts.
pub proof fn law_the_last_option_counts(
    before: Seq<(String, OptionValue)>,
    o: (String, OptionValue),
    after: Seq<(String, OptionValue)>,
    a: FieldAttrs,
)
    requires
        attrs_of(before.push(o) + after) == Ok::<FieldAttrs, Seq<char>>(a),
        forall|i: int| 0 <= i < after.len() ==> (#[trigger] after[i]).0@ != o.0@,
    ensures
        o.0@ == "title"@ ==> (o.1 matches OptionValue::Text(t) && a.title == Some(t)),
        o.0@ == "name"@ ==> (o.1 matches OptionValue::Text(t) && a.name == Some(t)),
        o.0@ == "item_title"@ ==> (o.1 matches OptionValue::Text(t) && a.item_title == Some(t)),
        o.0@ == "format"@ ==> (o.1 matches OptionValue::Text(t) && a.format == Some(t)),
        o.0@ == "pattern"@ ==> (o.1 matches OptionValue::Text(t) && a.pattern == Some(t)),
        o.0@ == "default"@ ==> (o.1 matches OptionValue::Expr(t) && a.default == Some(t)),
        o.0@ == "hidden"@ ==> a.hidden,
        o.0@ == "advanced"@ ==> a.advanced,
        o.0@ == "deprecated"@ ==> a.deprecated,
        o.0@ == "min"@ ==> (o.1 matches OptionValue::Literal(l) && a.min == Some(l)),
        o.0@ == "max"@ ==> (o.1 matches OptionValue::Literal(l) && a.max == Some(l)),
        o.0@ == "multiple_of"@ ==> (o.1 matches OptionValue::Literal(l) && a.multiple_of == Some(l)),
        o.0@ == "min_items"@ ==> (o.1 matches OptionValue::Count(n) && a.min_items == Some(n)),
        o.0@ == "max_items"@ ==> (o.1 matches OptionValue::Count(n) && a.max_items == Some(n)),
    decreases after.len(),
{
    lemma_option_names();
    let list = before.push(o) + after;
    if after.len() == 0 {
        assert(list =~= before.push(o));
        assert(list.drop_last() =~= before);
    } else {
        let rest = after.drop_last();
        assert(list.drop_last() =~= before.push(o) + rest);
        assert(list.last() == after[after.len() - 1]);
        assert(forall|i: int| 0 <= i < rest.len() ==> #[trigger] rest[i] == after[i]);
        let b = attrs_of(list.drop_last())->Ok_0;
        law_the_last_option_counts(before, o, rest, b);
    }
}

// ---- code of fields -----------------------------------------------------------------------

/// Whether a code is another with a part put in at some place.
pub open spec fn adds(with: Seq<char>, without: Seq<char>, part: Seq<char>) -> bool {
    exists|a: Seq<char>, b: Seq<char>| without == #[trigger] (a + b) && with == a + part + b
}

proof fn lemma_adds(a: Seq<char>, b: Seq<char>, part: Seq<char>)
    ensures
        adds(a + part + b, a + b, part),
{
}

spec fn described(f: FieldDecl) -> Seq<char> {
    let comment = comment_text(f.docs@);
    text_call(
        "__el.description = ::core::option::Option::Some("@,
        if comment.len() > 0 {
            Some(comment)
        } else {
            None
        },
        ".to_string()); "@,
    )
}

spec fn parts(f: FieldDecl, p: u32) -> Seq<Seq<char>> {
    seq![
        "{ "@ + f.construct_code(),
        ("__el.position = ::core::option::Option::Some("@ + decimal(p as nat) + "u32); "@),
        described(f),
        flag_code(f.attrs.hidden, "__el.hidden = true; "@),
        flag_code(f.attrs.advanced, "__el.advanced = ::core::option::Option::Some(true); "@),
        flag_code(f.attrs.deprecated, "__el.deprecated = ::core::option::Option::Some(true); "@),
        text_call("__el.format = ::core::option::Option::Some("@, opt_chars(f.attrs.format), ".to_string()); "@),
        text_call("__el.set_pattern("@, opt_chars(f.attrs.pattern), "); "@),
        bound_code("__el.set_minimum("@, f.attrs.min),
        bound_code("__el.set_maximum("@, f.attrs.max),
        bound_code("__el.set_multiple_of("@, f.attrs.multiple_of),
        count_code("__el.set_min_items("@, f.attrs.min_items),
        count_code("__el.set_max_items("@, f.attrs.max_items),
        f.default_code(),
        "__els.push(__el); }"@,
    ]
}

proof fn lemma_code_is_its_parts(f: FieldDecl, p: u32)
    ensures
        f.code(p) == parts(f, p).flatten(),
{
    let s = parts(f, p);
    s.lemma_flatten_and_flatten_alt_are_equivalent();
    reveal_with_fuel(Seq::flatten_alt, 16);
    assert(s.take(1).drop_last() =~= s.take(0));
    assert(s.take(2).drop_last() =~= s.take(1));
    assert(s.take(3).drop_last() =~= s.take(2));
    assert(s.take(4).drop_last() =~= s.take(3));
    assert(s.take(5).drop_last() =~= s.take(4));
    assert(s.take(6).drop_last() =~= s.take(5));
    assert(s.take(7).drop_last() =~= s.take(6));
    assert(s.take(8).drop_last() =~= s.take(7));
    assert(s.take(9).drop_last() =~= s.take(8));
    assert(s.take(10).drop_last() =~= s.take(9));
    assert(s.take(11).drop_last() =~= s.take(10));
    assert(s.take(12).drop_last() =~= s.take(11));
    assert(s.take(13).drop_last() =~= s.take(12));
    assert(s.take(14).drop_last() =~= s.take(13));
    assert(s.take(15).drop_last() =~= s.take(14));
    assert(s.take(15) =~= s);
    assert(s.take(0).flatten_alt() =~= Seq::empty());
    assert(s.take(1).flatten_alt() =~= s[0]);
}

proof fn lemma_part_replaced(s: Seq<Seq<char>>, k: int, x: Seq<char>)
    requires
        0 <= k < s.len(),
    ensures
        s.update(k, x).flatten() == s.take(k).flatten() + x + s.skip(k + 1).flatten(),
        s.update(k, Seq::empty()).flatten() == s.take(k).flatten() + s.skip(k + 1).flatten(),
        adds(s.update(k, x).flatten(), s.update(k, Seq::empty()).flatten(), x),
{
    let none = Seq::<char>::empty();
    lemma_middle(s, k, x);
    lemma_middle(s, k, none);
    assert(s.take(k).flatten() + none + s.skip(k + 1).flatten() =~= s.take(k).flatten() + s.skip(
        k + 1,
    ).flatten());
    lemma_adds(s.take(k).flatten(), s.skip(k + 1).flatten(), x);
}

proof fn lemma_middle(s: Seq<Seq<char>>, k: int, x: Seq<char>)
    requires
        0 <= k < s.len(),
    ensures
        s.update(k, x).flatten() == s.take(k).flatten() + x + s.skip(k + 1).flatten(),
{
    let front = s.take(k).push(x);
    let back = s.skip(k + 1);
    assert(s.update(k, x) =~= front + back);
    lemma_flatten_concat(front, back);
    s.take(k).lemma_flatten_push(x);
}

/// A field that declares `hidden` has the code of one that does not, with what sets it put in.
pub proof fn law_hidden_is_set_where_declared(f: FieldDecl, p: u32)
    ensures
        adds(
            (FieldDecl { attrs: FieldAttrs { hidden: true, ..f.attrs }, ..f }).code(p),
            (FieldDecl { attrs: FieldAttrs { hidden: false, ..f.attrs }, ..f }).code(p),
            "__el.hidden = true; "@,
        ),
{
    let with = FieldDecl { attrs: FieldAttrs { hidden: true, ..f.attrs }, ..f };
    let without = FieldDecl { attrs: FieldAttrs { hidden: false, ..f.attrs }, ..f };
    let part = "__el.hidden = true; "@;
    let s = parts(f, p);
    lemma_code_is_its_parts(with, p);
    lemma_code_is_its_parts(without, p);
    assert(parts(with, p)[3] =~= part);
    assert(parts(with, p) =~= s.update(3, part));
    assert(parts(without, p) =~= s.update(3, Seq::empty()));
    lemma_part_replaced(s, 3, part);
}

/// A field that declares `advanced` has the code of one that does not, with what sets it put in.
pub proof fn law_advanced_is_set_where_declared(f: FieldDecl, p: u32)
    ensures
        adds(
            (FieldDecl { attrs: FieldAttrs { advanced: true, ..f.attrs }, ..f }).code(p),
            (FieldDecl { attrs: FieldAttrs { advanced: false, ..f.attrs }, ..f }).code(p),
            "__el.advanced = ::core::option::Option::Some(true); "@,
        ),
{
    let with = FieldDecl { attrs: FieldAttrs { advanced: true, ..f.attrs }, ..f };
    let without = FieldDecl { attrs: FieldAttrs { advanced: false, ..f.attrs }, ..f };
    let part = "__el.advanced = ::core::option::Option::Some(true); "@;
    let s = parts(f, p);
    lemma_code_is_its_parts(with, p);
    lemma_code_is_its_parts(without, p);
    assert(parts(with, p)[4] =~= part);
    assert(parts(with, p) =~= s.update(4, part));
    assert(parts(without, p) =~= s.update(4, Seq::empty()));
    lemma_part_replaced(s, 4, part);
}

/// A field that declares `deprecated` has the code of one that does not, with what sets it put in.
pub proof fn law_deprecated_is_set_where_declared(f: FieldDecl, p: u32)
    ensures
        adds(
            (FieldDecl { attrs: FieldAttrs { deprecated: true, ..f.attrs }, ..f }).code(p),
            (FieldDecl { attrs: FieldAttrs { deprecated: false, ..f.attrs }, ..f }).code(p),
            "__el.deprecated = ::core::option::Option::Some(true); "@,
        ),
{
    let with = FieldDecl { attrs: FieldAttrs { deprecated: true, ..f.attrs }, ..f };
    let without = FieldDecl { attrs: FieldAttrs { deprecated: false, ..f.attrs }, ..f };
    let part = "__el.deprecated = ::core::option::Option::Some(true); "@;
    let s = parts(f, p);
    lemma_code_is_its_parts(with, p);
    lemma_code_is_its_parts(without, p);
    assert(parts(with, p)[5] =~= part);
    assert(parts(with, p) =~= s.update(5, part));
    assert(parts(without, p) =~= s.update(5, Seq::empty()));
    lemma_part_replaced(s, 5, part);
}

/// A field that declares `format` has the code of one that does not, with what sets it put in.
pub proof fn law_format_is_set_where_declared(f: FieldDecl, p: u32, t: String)
    ensures
        adds(
            (FieldDecl { attrs: FieldAttrs { format: Some(t), ..f.attrs }, ..f }).code(p),
            (FieldDecl { attrs: FieldAttrs { format: None, ..f.attrs }, ..f }).code(p),
            "__el.format = ::core::option::Option::Some("@ + debug_text(t@) + ".to_string()); "@,
        ),
{
    let with = FieldDecl { attrs: FieldAttrs { format: Some(t), ..f.attrs }, ..f };
    let without = FieldDecl { attrs: FieldAttrs { format: None, ..f.attrs }, ..f };
    let part = "__el.format = ::core::option::Option::Some("@ + debug_text(t@) + ".to_string()); "@;
    let s = parts(f, p);
    lemma_code_is_its_parts(with, p);
    lemma_code_is_its_parts(without, p);
    assert(parts(with, p)[6] =~= part);
    assert(parts(with, p) =~= s.update(6, part));
    assert(parts(without, p) =~= s.update(6, Seq::empty()));
    lemma_part_replaced(s, 6, part);
}

/// A field that declares `pattern` has the code of one that does not, with what sets it put in.
pub proof fn law_pattern_is_set_where_declared(f: FieldDecl, p: u32, t: String)
    ensures
        adds(
            (FieldDecl { attrs: FieldAttrs { pattern: Some(t), ..f.attrs }, ..f }).code(p),
            (FieldDecl { attrs: FieldAttrs { pattern: None, ..f.attrs }, ..f }).code(p),
            "__el.set_pattern("@ + debug_text(t@) + "); "@,
        ),
{
    let with = FieldDecl { attrs: FieldAttrs { pattern: Some(t), ..f.attrs }, ..f };
    let without = FieldDecl { attrs: FieldAttrs { pattern: None, ..f.attrs }, ..f };
    let part = "__el.set_pattern("@ + debug_text(t@) + "); "@;
    let s = parts(f, p);
    lemma_code_is_its_parts(with, p);
    lemma_code_is_its_parts(without, p);
    assert(parts(with, p)[7] =~= part);
    assert(parts(with, p) =~= s.update(7, part));
    assert(parts(without, p) =~= s.update(7, Seq::empty()));
    lemma_part_replaced(s, 7, part);
}

/// A field that declares `min` has the code of one that does not, with what sets it put in.
pub proof fn law_min_is_set_where_declared(f: FieldDecl, p: u32, w: i64)
    ensures
        adds(
            (FieldDecl { attrs: FieldAttrs { min: Some(BoundLit::Whole(w)), ..f.attrs }, ..f }).code(p),
            (FieldDecl { attrs: FieldAttrs { min: None, ..f.attrs }, ..f }).code(p),
            "__el.set_minimum("@ + "::doover::__private::serde_json::Number::from("@ + decimal_int(w as int) + "i64)"@ + "); "@,
        ),
{
    let with = FieldDecl { attrs: FieldAttrs { min: Some(BoundLit::Whole(w)), ..f.attrs }, ..f };
    let without = FieldDecl { attrs: FieldAttrs { min: None, ..f.attrs }, ..f };
    let part = "__el.set_minimum("@ + "::doover::__private::serde_json::Number::from("@ + decimal_int(w as int) + "i64)"@ + "); "@;
    let s = parts(f, p);
    lemma_code_is_its_parts(with, p);
    lemma_code_is_its_parts(without, p);
    assert(parts(with, p)[8] =~= part);
    assert(parts(with, p) =~= s.update(8, part));
    assert(parts(without, p) =~= s.update(8, Seq::empty()));
    lemma_part_replaced(s, 8, part);
}

/// A field that declares `max` has the code of one that does not, with what sets it put in.
pub proof fn law_max_is_set_where_declared(f: FieldDecl, p: u32, w: i64)
    ensures
        adds(
            (FieldDecl { attrs: FieldAttrs { max: Some(BoundLit::Whole(w)), ..f.attrs }, ..f }).code(p),
            (FieldDecl { attrs: FieldAttrs { max: None, ..f.attrs }, ..f }).code(p),
            "__el.set_maximum("@ + "::doover::__private::serde_json::Number::from("@ + decimal_int(w as int) + "i64)"@ + "); "@,
        ),
{
    let with = FieldDecl { attrs: FieldAttrs { max: Some(BoundLit::Whole(w)), ..f.attrs }, ..f };
    let without = FieldDecl { attrs: FieldAttrs { max: None, ..f.attrs }, ..f };
    let part = "__el.set_maximum("@ + "::doover::__private::serde_json::Number::from("@ + decimal_int(w as int) + "i64)"@ + "); "@;
    let s = parts(f, p);
    lemma_code_is_its_parts(with, p);
    lemma_code_is_its_parts(without, p);
    assert(parts(with, p)[9] =~= part);
    assert(parts(with, p) =~= s.update(9, part));
    assert(parts(without, p) =~= s.update(9, Seq::empty()));
    lemma_part_replaced(s, 9, part);
}

/// A field that declares `multiple_of` has the code of one that does not, with what sets it put in.
pub proof fn law_multiple_of_is_set_where_declared(f: FieldDecl, p: u32, w: i64)
    ensures
        adds(
            (FieldDecl { attrs: FieldAttrs { multiple_of: Some(BoundLit::Whole(w)), ..f.attrs }, ..f }).code(p),
            (FieldDecl { attrs: FieldAttrs { multiple_of: None, ..f.attrs }, ..f }).code(p),
            "__el.set_multiple_of("@ + "::doover::__private::serde_json::Number::from("@ + decimal_int(w as int) + "i64)"@ + "); "@,
        ),
{
    let with = FieldDecl { attrs: FieldAttrs { multiple_of: Some(BoundLit::Whole(w)), ..f.attrs }, ..f };
    let without = FieldDecl { attrs: FieldAttrs { multiple_of: None, ..f.attrs }, ..f };
    let part = "__el.set_multiple_of("@ + "::doover::__private::serde_json::Number::from("@ + decimal_int(w as int) + "i64)"@ + "); "@;
    let s = parts(f, p);
    lemma_code_is_its_parts(with, p);
    lemma_code_is_its_parts(without, p);
    assert(parts(with, p)[10] =~= part);
    assert(parts(with, p) =~= s.update(10, part));
    assert(parts(without, p) =~= s.update(10, Seq::empty()));
    lemma_part_replaced(s, 10, part);
}

/// A field that declares `min_items` has the code of one that does not, with what sets it put in.
pub proof fn law_min_items_is_set_where_declared(f: FieldDecl, p: u32, n: u64)
    ensures
        adds(
            (FieldDecl { attrs: FieldAttrs { min_items: Some(n), ..f.attrs }, ..f }).code(p),
            (FieldDecl { attrs: FieldAttrs { min_items: None, ..f.attrs }, ..f }).code(p),
            "__el.set_min_items("@ + decimal(n as nat) + "u64); "@,
        ),
{
    let with = FieldDecl { attrs: FieldAttrs { min_items: Some(n), ..f.attrs }, ..f };
    let without = FieldDecl { attrs: FieldAttrs { min_items: None, ..f.attrs }, ..f };
    let part = "__el.set_min_items("@ + decimal(n as nat) + "u64); "@;
    let s = parts(f, p);
    lemma_code_is_its_parts(with, p);
    lemma_code_is_its_parts(without, p);
    assert(parts(with, p)[11] =~= part);
    assert(parts(with, p) =~= s.update(11, part));
    assert(parts(without, p) =~= s.update(11, Seq::empty()));
    lemma_part_replaced(s, 11, part);
}

/// A field that declares `max_items` has the code of one that does not, with what sets it put in.
pub proof fn law_max_items_is_set_where_declared(f: FieldDecl, p: u32, n: u64)
    ensures
        adds(
            (FieldDecl { attrs: FieldAttrs { max_items: Some(n), ..f.attrs }, ..f }).code(p),
            (FieldDecl { attrs: FieldAttrs { max_items: None, ..f.attrs }, ..f }).code(p),
            "__el.set_max_items("@ + decimal(n as nat) + "u64); "@,
        ),
{
    let with = FieldDecl { attrs: FieldAttrs { max_items: Some(n), ..f.attrs }, ..f };
    let without = FieldDecl { attrs: FieldAttrs { max_items: None, ..f.attrs }, ..f };
    let part = "__el.set_max_items("@ + decimal(n as nat) + "u64); "@;
    let s = parts(f, p);
    lemma_code_is_its_parts(with, p);
    lemma_code_is_its_parts(without, p);
    assert(parts(with, p)[12] =~= part);
    assert(parts(with, p) =~= s.update(12, part));
    assert(parts(without, p) =~= s.update(12, Seq::empty()));
    lemma_part_replaced(s, 12, part);
}

/// The code of a field holds its position, and is otherwise the same at every position.
pub proof fn law_fields_say_their_position(f: FieldDecl, p: u32, q: u32)
    ensures
        exists|a: Seq<char>, b: Seq<char>|
            f.code(p) == a + ("__el.position = ::core::option::Option::Some("@ + decimal(p as nat)
                + "u32); "@) + b && f.code(q) == a + (
            "__el.position = ::core::option::Option::Some("@ + decimal(q as nat) + "u32); "@) + b
                && #[trigger] (a + b).len() >= 0,
{
    let x = "__el.position = ::core::option::Option::Some("@ + decimal(p as nat) + "u32); "@;
    let y = "__el.position = ::core::option::Option::Some("@ + decimal(q as nat) + "u32); "@;
    let s = parts(f, p);
    lemma_code_is_its_parts(f, p);
    lemma_code_is_its_parts(f, q);
    assert(s =~= s.update(1, x));
    assert(parts(f, q) =~= s.update(1, y));
    lemma_middle(s, 1, x);
    lemma_middle(s, 1, y);
    let a = s.take(1).flatten();
    let b = s.skip(2).flatten();
    assert((a + b).len() >= 0);
}

/// A comment on a field becomes its description, and a field without one has none.
pub proof fn law_comments_describe_fields(f: FieldDecl, p: u32, bare: FieldDecl)
    requires
        bare == (FieldDecl { docs: bare.docs, ..f }),
        comment_text(bare.docs@).len() == 0,
        comment_text(f.docs@).len() > 0,
    ensures
        adds(
            f.code(p),
            bare.code(p),
            "__el.description = ::core::option::Option::Some("@ + debug_text(comment_text(f.docs@))
                + ".to_string()); "@,
        ),
{
    let part = "__el.description = ::core::option::Option::Some("@ + debug_text(
        comment_text(f.docs@),
    ) + ".to_string()); "@;
    let s = parts(f, p);
    lemma_code_is_its_parts(f, p);
    lemma_code_is_its_parts(bare, p);
    assert(s[2] =~= part);
    assert(s =~= s.update(2, part));
    assert(parts(bare, p) =~= s.update(2, Seq::empty()));
    lemma_part_replaced(s, 2, part);
}

/// A field of an optional type is built like one of the type inside, and its default is null
/// unless it declares another.
pub proof fn law_optional_fields_default_to_null(f: FieldDecl, t: TypeDesc)
    requires
        opt_chars(f.ty.last) == Some("Option"@),
        f.ty.inner == Some(Box::new(t)),
        opt_chars(t.last) != Some("Option"@),
    ensures
        f.construct_code() == (FieldDecl { ty: t, ..f }).construct_code(),
        f.attrs.default is None ==> f.default_code()
            == "__el.default = ::core::option::Option::Some(::doover::__private::serde_json::Value::Null); "@,
        f.attrs.default is None ==> (FieldDecl { ty: t, ..f }).default_code().len() == 0,
        f.attrs.default is Some ==> f.default_code() == (FieldDecl { ty: t, ..f }).default_code(),
{
}

/// A default that is declared is turned into the type of the field and stored.
pub proof fn law_declared_defaults_are_stored(f: FieldDecl, e: String)
    requires
        opt_chars(f.ty.last) != Some("Option"@),
        f.attrs.default == Some(e),
    ensures
        f.default_code() == "let __default: "@ + f.ty.text@ + " = ::core::convert::Into::into("@ + e@
            + "); __el.default = ::core::option::Option::Some(::doover::config::ToConfigValue::to_config_value(&__default)); "@,
{
}

/// A field goes by the name and title that it declares, and otherwise by its own name; what
/// is no list or option is built from its type.
pub proof fn law_fields_go_by_their_names(f: FieldDecl, n: String)
    ensures
        (FieldDecl { attrs: FieldAttrs { name: Some(n), ..f.attrs }, ..f }).key() == n@,
        (FieldDecl { attrs: FieldAttrs { name: None, ..f.attrs }, ..f }).key() == f.name@,
        (FieldDecl { attrs: FieldAttrs { title: Some(n), ..f.attrs }, ..f }).title() == n@,
        (FieldDecl { attrs: FieldAttrs { title: None, ..f.attrs }, ..f }).title() == titled(
            f.name@,
        ),
        opt_chars(f.ty.last) != Some("Option"@) && opt_chars(f.ty.last) != Some("Vec"@)
            ==> f.construct_code() == "let mut __el = <"@ + f.ty.text@
            + " as ::doover::config::ConfigElementBuild>::element("@ + debug_text(f.title()) + ", "@
            + debug_text(f.key()) + "); "@,
{
}

/// A list field is built around an item of its own type, which goes by the title that the
/// field declares for its items.
pub proof fn law_list_fields_have_items(f: FieldDecl, t: TypeDesc, title: String)
    requires
        opt_chars(f.ty.last) == Some("Vec"@),
        f.ty.inner == Some(Box::new(t)),
        f.attrs.item_title == Some(title),
    ensures
        f.construct_code() == "let __item = <"@ + t.text@
            + " as ::doover::config::ConfigElementBuild>::element("@ + debug_text(title@)
            + ", &::doover::config::sanitize_display_name("@ + debug_text(title@)
            + ")); let mut __el = ::doover::config::ElementSchema::array("@ + debug_text(f.title())
            + ", "@ + debug_text(f.key()) + ", __item); "@,
{
    reveal_strlit("Vec");
    reveal_strlit("Option");
    assert("Vec"@.len() != "Option"@.len());
}

/// A field is refused exactly if its declared name holds a character that no key may hold, its
/// title would give it another name, it is a list without a title for its items, or a bound is
/// no number.
pub proof fn law_fields_are_refused_for_a_reason(f: FieldDecl, item: Option<TypeDesc>)
    requires
        opt_chars(f.ty.last) != Some("Option"@),
        item == (if opt_chars(f.ty.last) == Some("Vec"@) {
            match f.ty.inner {
                Some(t) => Some(*t),
                None => None,
            }
        } else {
            None
        }),
    ensures
        f.fault() is Some <==> {
            ||| f.attrs.name matches Some(n) && exists|i: int|
                0 <= i < n@.len() && !(n@[i] == ' ' || n@[i] == '-' || n@[i] == '_' || 'A' <= n@[i]
                    <= 'Z' || 'a' <= n@[i] <= 'z' || '0' <= #[trigger] n@[i] <= '9')
            ||| f.attrs.name is None && (f.attrs.title matches Some(t) && sanitized(t@) != f.name@)
            ||| item is Some && f.attrs.item_title is None
            ||| f.attrs.min == Some(BoundLit::Other)
            ||| f.attrs.max == Some(BoundLit::Other)
            ||| f.attrs.multiple_of == Some(BoundLit::Other)
        },
{
    if let Some(n) = f.attrs.name {
        if forall|i: int| 0 <= i < f.key().len() ==> key_mark(#[trigger] f.key()[i]) {
            assert forall|i: int| 0 <= i < n@.len() implies (n@[i] == ' ' || n@[i] == '-' || n@[i]
                == '_' || 'A' <= n@[i] <= 'Z' || 'a' <= n@[i] <= 'z' || '0' <= #[trigger] n@[i]
                <= '9') by {
                assert(key_mark(f.key()[i]));
            }
        }
    }
}

/// A bound is written as the number that was declared, whole or with a fraction.
pub proof fn law_bounds_are_written_as_declared(n: i64, t: String)
    ensures
        number_code(BoundLit::Whole(n)) == Some(
            "::doover::__private::serde_json::Number::from("@ + decimal_int(n as int) + "i64)"@,
        ),
        number_code(BoundLit::Fraction(t)) == Some(
            "::doover::__private::serde_json::Number::from_f64("@ + t@
                + "f64).expect(\"config bound must be finite\")"@,
        ),
        number_code(BoundLit::Other) is None,
{
}

// ---- code of structures -------------------------------------------------------------------

/// The code of a structure's elements is the code of its fields in their order, counted from
/// where the count starts.
pub proof fn law_structures_have_the_code_of_their_fields(fields: Seq<FieldDecl>, first: nat)
    requires
        forall|i: int| 0 <= i < fields.len() ==> (#[trigger] fields[i]).fault() is None,
    ensures
        blocks(fields, first) == Ok::<Seq<char>, (int, Seq<char>)>(
            Seq::new(fields.len(), |i: int| fields[i].code((first + i) as u32)).flatten(),
        ),
    decreases fields.len(),
{
    let codes = Seq::new(fields.len(), |i: int| fields[i].code((first + i) as u32));
    if fields.len() == 0 {
        assert(codes =~= Seq::empty());
    } else {
        let d = fields.drop_last();
        assert forall|i: int| 0 <= i < d.len() implies (#[trigger] d[i]).fault() is None by {
            let same = fields[i];
        }
        law_structures_have_the_code_of_their_fields(d, first);
        assert(fields[fields.len() - 1].fault() is None);
        let before = Seq::new(d.len(), |i: int| d[i].code((first + i) as u32));
        let last = fields.last().code((first + fields.len() - 1) as u32);
        lemma_flattened_with_last(codes, before, last);
    }
}

proof fn lemma_flattened_with_last(all: Seq<Seq<char>>, before: Seq<Seq<char>>, last: Seq<char>)
    requires
        all.len() == before.len() + 1,
        all.last() == last,
        forall|i: int| 0 <= i < before.len() ==> #[trigger] all[i] == before[i],
    ensures
        all.flatten() == before.flatten() + last,
{
    assert(all =~= before.push(last));
    before.lemma_flatten_push(last);
}

/// If fields of a structure are refused, the first one that is says why.
pub proof fn law_the_first_refused_field_says_why(fields: Seq<FieldDecl>, first: nat, k: int)
    requires
        0 <= k < fields.len(),
        forall|i: int| 0 <= i < k ==> (#[trigger] fields[i]).fault() is None,
        fields[k].fault() is Some,
    ensures
        blocks(fields, first) == Err::<Seq<char>, (int, Seq<char>)>((k, fields[k].fault()->0)),
    decreases fields.len(),
{
    let d = fields.drop_last();
    assert forall|i: int| 0 <= i < k && i < d.len() implies (#[trigger] d[i]).fault() is None by {
        let same = fields[i];
    }
    if k < d.len() {
        let same = d[k];
        law_the_first_refused_field_says_why(d, first, k);
    } else {
        law_structures_have_the_code_of_their_fields(d, first);
    }
}

/// Each field is loaded from the element at its own place.
pub proof fn law_fields_are_loaded_from_their_element(fields: Seq<FieldDecl>)
    ensures
        loads(fields) == Seq::new(
            fields.len(),
            |i: int|
                fields[i].name@ + ": ::doover::config::load_element(__v, &__els["@ + decimal(
                    i as nat,
                ) + "usize])?, "@,
        ).flatten(),
    decreases fields.len(),
{
    let codes = Seq::new(
        fields.len(),
        |i: int|
            fields[i].name@ + ": ::doover::config::load_element(__v, &__els["@ + decimal(i as nat)
                + "usize])?, "@,
    );
    if fields.len() == 0 {
        assert(codes =~= Seq::empty());
    } else {
        let d = fields.drop_last();
        law_fields_are_loaded_from_their_element(d);
        let before = Seq::new(
            d.len(),
            |i: int|
                d[i].name@ + ": ::doover::config::load_element(__v, &__els["@ + decimal(i as nat)
                    + "usize])?, "@,
        );
        assert(codes =~= before.push(codes.last()));
        before.lemma_flatten_push(codes.last());
    }
}

/// Something is written for each field, in their order.
pub proof fn law_each_field_is_written(fields: Seq<Seq<char>>, start: Seq<char>, end: Seq<char>)
    ensures
        each_field(fields, start, end) == fields.map_values(
            |f: Seq<char>| start + f + end,
        ).flatten(),
    decreases fields.len(),
{
    let g = |f: Seq<char>| start + f + end;
    if fields.len() == 0 {
        assert(fields.map_values(g) =~= Seq::empty());
    } else {
        let d = fields.drop_last();
        law_each_field_is_written(d, start, end);
        assert(fields.map_values(g) =~= d.map_values(g).push(g(fields.last())));
        d.map_values(g).lemma_flatten_push(g(fields.last()));
    }
}

// ---- choices ------------------------------------------------------------------------------

/// A variant stands for the text that it declares, or else for its name with spaces, and the
/// values of a choice are those of its variants in their order.
pub proof fn law_choices_have_the_values_of_their_variants(variants: Seq<VariantDecl>)
    ensures
        value_codes(variants) == variants.map_values(
            |v: VariantDecl|
                "::doover::__private::serde_json::Value::String("@ + debug_text(
                    match v.rename {
                        Some(r) => r@,
                        None => spaced(v.ident@),
                    },
                ) + ".to_string()), "@,
        ).flatten(),
    decreases variants.len(),
{
    let g = |v: VariantDecl|
        "::doover::__private::serde_json::Value::String("@ + debug_text(
            match v.rename {
                Some(r) => r@,
                None => spaced(v.ident@),
            },
        ) + ".to_string()), "@;
    if variants.len() == 0 {
        assert(variants.map_values(g) =~= Seq::empty());
    } else {
        let d = variants.drop_last();
        law_choices_have_the_values_of_their_variants(d);
        assert(variants.map_values(g) =~= d.map_values(g).push(g(variants.last())));
        d.map_values(g).lemma_flatten_push(g(variants.last()));
    }
}

/// A choice is refused for the first variant that has fields, and only for such a one.
pub proof fn law_variants_have_no_fields(variants: Seq<VariantDecl>)
    ensures
        match first_with_fields(variants) {
            Some(k) => 0 <= k < variants.len() && !variants[k].is_unit && forall|i: int|
                0 <= i < k ==> (#[trigger] variants[i]).is_unit,
            None => forall|i: int| 0 <= i < variants.len() ==> (#[trigger] variants[i]).is_unit,
        },
    decreases variants.len(),
{
    if variants.len() > 0 {
        let d = variants.drop_last();
        law_variants_have_no_fields(d);
        assert(forall|i: int| 0 <= i < d.len() ==> #[trigger] d[i] == variants[i]);
        if first_with_fields(d) is None {
            assert forall|i: int| 0 <= i < d.len() implies (#[trigger] variants[i]).is_unit by {
                let same = d[i];
            }
        } else {
            let k = first_with_fields(d)->0;
            assert forall|i: int| 0 <= i < k implies (#[trigger] variants[i]).is_unit by {
                let same = d[i];
            }
        }
    }
}

// ---- tags ---------------------------------------------------------------------------------

/// The names of declared tags are those of all fields in their order, and the live names
/// those of the fields that are live.
pub proof fn law_declared_tags_are_named(fields: Seq<TagField>)
    requires
        fields_code(fields) is Ok,
    ensures
        fields_code(fields)->Ok_0.names == fields.map_values(
            |f: TagField| debug_text(f.tag_name()),
        ),
        fields_code(fields)->Ok_0.live_names == fields.filter(
            |f: TagField| f.attrs.live,
        ).map_values(|f: TagField| debug_text(f.tag_name())),
    decreases fields.len(),
{
    reveal(Seq::filter);
    let g = |f: TagField| debug_text(f.tag_name());
    let live = |f: TagField| f.attrs.live;
    if fields.len() == 0 {
        assert(fields.map_values(g) =~= Seq::empty());
        assert(fields.filter(live).map_values(g) =~= Seq::empty());
    } else {
        let d = fields.drop_last();
        law_declared_tags_are_named(d);
        assert(fields.map_values(g) =~= d.map_values(g).push(g(fields.last())));
        if fields.last().attrs.live {
            assert(fields.filter(live).map_values(g) =~= d.filter(live).map_values(g).push(
                g(fields.last()),
            ));
        }
    }
}

/// A tag goes by the name that its field declares, or else by the name of the field; a
/// default of `None` is null, and without a default there is none.
pub proof fn law_tags_go_by_their_names(f: TagField, inner: Seq<char>)
    ensures
        f.attrs.name matches Some(n) ==> f.tag_name() == n@,
        f.attrs.name is None ==> f.tag_name() == f.ident@,
        f.attrs.default is None ==> f.default_code(inner) == "::core::option::Option::None"@,
        f.attrs.default matches Some(e) ==> (e@ == "None"@ ==> f.default_code(inner)
            == "::core::option::Option::Some(::doover::__private::serde_json::Value::Null)"@),
        f.attrs.default matches Some(e) ==> (e@ != "None"@ ==> f.default_code(inner)
            == "::core::option::Option::Some({ let __default: "@ + inner
            + " = ::core::convert::Into::into("@ + e@ + "); <"@ + inner
            + " as ::doover::tags::TagValue>::to_value(&__default) })"@),
{
}

/// A tag without rules is declared with its name, whether it is live, and its default.
pub proof fn law_tags_are_declared(f: TagField, t: TypeDesc)
    requires
        opt_chars(f.ty.last) == Some("Tag"@),
        f.ty.inner == Some(Box::new(t)),
        f.attrs.log_on@.len() == 0,
    ensures
        f.code() == Ok::<Seq<char>, Seq<char>>(
            "::doover::tags::Tag::<"@ + t.text@ + ">::declared("@ + debug_text(f.tag_name()) + ", "@
                + (if f.attrs.live {
                "true"@
            } else {
                "false"@
            }) + ", "@ + f.default_code(t.text@) + ")"@,
        ),
{
    assert(spec_views(f.attrs.log_on@) =~= Seq::empty());
}

/// What is no tag is refused, and the first field that is refused says why.
pub proof fn law_other_fields_are_no_tags(fields: Seq<TagField>, k: int)
    requires
        0 <= k < fields.len(),
        forall|i: int| 0 <= i < k ==> (#[trigger] fields[i]).code() is Ok,
        fields[k].code() is Err,
    ensures
        fields_code(fields) == Err::<TagsCode, (int, Seq<char>)>((k, fields[k].code()->Err_0)),
        opt_chars(fields[k].ty.last) != Some("Tag"@) ==> fields[k].code()->Err_0 == NEEDS_TAG@,
    decreases fields.len(),
{
    let d = fields.drop_last();
    assert(forall|i: int| 0 <= i < d.len() ==> #[trigger] d[i] == fields[i]);
    if k < d.len() {
        assert forall|i: int| 0 <= i < k implies (#[trigger] d[i]).code() is Ok by {
            let same = fields[i];
        }
        let same = d[k];
        law_other_fields_are_no_tags(d, k);
    } else {
        assert forall|i: int| 0 <= i < d.len() implies (#[trigger] d[i]).code() is Ok by {
            let same = fields[i];
        }
        lemma_all_tags(d);
    }
}

proof fn lemma_all_tags(fields: Seq<TagField>)
    requires
        forall|i: int| 0 <= i < fields.len() ==> (#[trigger] fields[i]).code() is Ok,
    ensures
        fields_code(fields) is Ok,
    decreases fields.len(),
{
    if fields.len() > 0 {
        let d = fields.drop_last();
        assert forall|i: int| 0 <= i < d.len() implies (#[trigger] d[i]).code() is Ok by {
            let same = fields[i];
        }
        lemma_all_tags(d);
        let last = fields[fields.len() - 1];
    }
}

/// Number tags take rules on numbers and other tags rules on states; on a type that is not
/// known any rule is written.
pub proof fn law_rules_fit_the_type(s: SpecView, ty: TypeDesc)
    ensures
        opt_chars(ty.last) == Some("f64"@) || opt_chars(ty.last) == Some("i64"@) ==> kind_of_type(ty)
            == Some(true),
        opt_chars(ty.last) == Some("bool"@) || opt_chars(ty.last) == Some("String"@)
            ==> kind_of_type(ty) == Some(false),
        kind_of_trigger("cross"@) == Some(true),
        kind_of_trigger("rise"@) == Some(true),
        kind_of_trigger("fall"@) == Some(true),
        kind_of_trigger("delta"@) == Some(true),
        kind_of_trigger("any_change"@) == Some(false),
        kind_of_trigger("enter"@) == Some(false),
        kind_of_trigger("exit"@) == Some(false),
        fitted(s, None) == trigger_code(s),
        kind_of_trigger(s.name) matches Some(k) ==> fitted(s, Some(k)) == trigger_code(s) && fitted(
            s,
            Some(!k),
        ) is Err,
{
    reveal_strlit("f64");
    reveal_strlit("i64");
    reveal_strlit("bool");
    reveal_strlit("String");
    reveal_strlit("cross");
    reveal_strlit("rise");
    reveal_strlit("fall");
    reveal_strlit("delta");
    reveal_strlit("any_change");
    reveal_strlit("enter");
    reveal_strlit("exit");
    assert("bool"@.len() == 4 && "String"@.len() == 6 && "f64"@.len() == 3 && "i64"@.len() == 3);
    assert("any_change"@.len() == 10);
    assert("enter"@[0] != "cross"@[0] && "enter"@[0] != "delta"@[0]);
    assert("exit"@[0] != "rise"@[0] && "exit"@[0] != "fall"@[0]);
}

/// The rules of a tag are written in their order, each as it would be alone.
pub proof fn law_rules_are_written_in_order(list: Seq<SpecView>, kind: Option<bool>)
    ensures
        trigger_codes(list, kind) is Ok <==> forall|i: int|
            0 <= i < list.len() ==> fitted(#[trigger] list[i], kind) is Ok,
        trigger_codes(list, kind) matches Ok(codes) ==> codes.len() == list.len() && forall|i: int|
            0 <= i < list.len() ==> fitted(#[trigger] list[i], kind) == Ok::<Seq<char>, Seq<char>>(
                codes[i],
            ),
    decreases list.len(),
{
    if list.len() > 0 {
        let d = list.drop_last();
        law_rules_are_written_in_order(d, kind);
        assert(forall|i: int| 0 <= i < d.len() ==> #[trigger] d[i] == list[i]);
        if let Ok(codes) = trigger_codes(list, kind) {
            assert forall|i: int| 0 <= i < list.len() implies fitted(#[trigger] list[i], kind)
                == Ok::<Seq<char>, Seq<char>>(codes[i]) by {
                if i < d.len() {
                    let same = d[i];
                }
            }
        } else if forall|i: int| 0 <= i < list.len() ==> fitted(#[trigger] list[i], kind) is Ok {
            let last = list[list.len() - 1];
            assert forall|i: int| 0 <= i < d.len() implies fitted(#[trigger] d[i], kind) is Ok by {
                let same = list[i];
            }
        }
    }
}

/// A threshold rule names its thresholds as numbers, in their order, and takes a deadband; a
/// delta rule takes an amount or a percentage, and one of them only.
pub proof fn law_rules_on_numbers_are_written(s: SpecView, d: Seq<char>)
    ensures
        (s.name == "cross"@ || s.name == "rise"@ || s.name == "fall"@) && s.positional.len() > 0
            && s.named.len() == 0 ==> trigger_code(s) == Ok::<Seq<char>, Seq<char>>(
            "::doover::tags::LogTrigger::"@ + s.name + "(::std::vec!["@ + joined(
                s.positional.map_values(|e: Seq<char>| "("@ + e + ") as f64"@),
                ", "@,
            ) + "])"@,
        ),
        (s.name == "cross"@ || s.name == "rise"@ || s.name == "fall"@) && s.positional.len() > 0
            && s.named == seq![("deadband"@, d)] ==> trigger_code(s) == Ok::<Seq<char>, Seq<char>>(
            trigger_code(SpecView { named: Seq::empty(), ..s })->Ok_0 + ".deadband("@ + ("("@ + d
                + ") as f64"@) + ")"@,
        ),
        (s.name == "cross"@ || s.name == "rise"@ || s.name == "fall"@) && s.positional.len() == 0
            ==> trigger_code(s) is Err,
        s.name == "delta"@ && s.positional.len() == 0 && s.named == seq![("amount"@, d)]
            ==> trigger_code(s) == Ok::<Seq<char>, Seq<char>>(
            "::doover::tags::LogTrigger::delta_amount("@ + ("("@ + d + ") as f64"@) + ")"@,
        ),
        s.name == "delta"@ && s.positional.len() == 0 && s.named == seq![("percent"@, d)]
            ==> trigger_code(s) == Ok::<Seq<char>, Seq<char>>(
            "::doover::tags::LogTrigger::delta_percent("@ + ("("@ + d + ") as f64"@) + ")"@,
        ),
        s.name == "delta"@ && (s.positional.len() > 0 || s.named.len() != 1) ==> trigger_code(
            s,
        ) is Err,
{
    reveal_strlit("cross");
    reveal_strlit("rise");
    reveal_strlit("fall");
    reveal_strlit("delta");
    reveal_strlit("amount");
    reveal_strlit("percent");
    assert("delta"@[0] != "cross"@[0] && "amount"@.len() != "percent"@.len());
    assert("delta"@.len() != "rise"@.len() && "delta"@.len() != "fall"@.len());
    reveal_with_fuel(deadband_of, 2);
    assert(as_numbers(s.positional) =~= s.positional.map_values(
        |e: Seq<char>| "("@ + e + ") as f64"@,
    ));
    assert(seq![("deadband"@, d)].drop_last() =~= Seq::empty());
}

/// An option of a tag sets its own part and keeps the others; rules add up.
pub proof fn law_tag_options_set_their_part(
    a: TagAttrsView,
    t: String,
    name: Seq<char>,
    v: TagValueTokens,
)
    ensures
        with_tag_option(a, "live"@, TagValueTokens::Flag, Seq::empty()) == Ok::<
            TagAttrsView,
            Seq<char>,
        >(TagAttrsView { live: true, ..a }),
        with_tag_option(a, "name"@, TagValueTokens::Text(t), Seq::empty()) == Ok::<
            TagAttrsView,
            Seq<char>,
        >(TagAttrsView { name: Some(t@), ..a }),
        with_tag_option(a, "default"@, TagValueTokens::Expr(t), Seq::empty()) == Ok::<
            TagAttrsView,
            Seq<char>,
        >(TagAttrsView { default: Some(t@), ..a }),
        name != "live"@ && name != "name"@ && name != "default"@ && name != "log_on"@
            ==> with_tag_option(a, name, v, Seq::empty()) is Err,
        !(v is Flag) ==> with_tag_option(a, "live"@, v, Seq::empty()) is Err,
        !(v is Text) ==> with_tag_option(a, "name"@, v, Seq::empty()) is Err,
        !(v is Expr) ==> with_tag_option(a, "default"@, v, Seq::empty()) is Err,
        !(v is List) ==> with_tag_option(a, "log_on"@, v, Seq::empty()) is Err,
{
    reveal_strlit("live");
    reveal_strlit("name");
    reveal_strlit("default");
    reveal_strlit("log_on");
    assert("live"@[0] != "name"@[0]);
    assert("default"@.len() == 7 && "log_on"@.len() == 6 && "live"@.len() == 4);
}

/// A rule on states is written by its name: a change takes nothing, and entering or leaving a
/// state takes that state and nothing else.
pub proof fn law_rules_on_states_are_written(s: SpecView)
    ensures
        s.name == "any_change"@ && s.positional.len() == 0 && s.named.len() == 0 ==> trigger_code(s)
            == Ok::<Seq<char>, Seq<char>>("::doover::tags::LogTrigger::any_change()"@),
        s.name == "any_change"@ && (s.positional.len() > 0 || s.named.len() > 0) ==> trigger_code(
            s,
        ) is Err,
        (s.name == "enter"@ || s.name == "exit"@) && s.positional.len() == 1 && s.named.len() == 0
            ==> trigger_code(s) == Ok::<Seq<char>, Seq<char>>(
            "::doover::tags::LogTrigger::"@ + s.name + "(::doover::__private::serde_json::json!("@
                + s.positional[0] + "))"@,
        ),
        (s.name == "enter"@ || s.name == "exit"@) && (s.positional.len() != 1 || s.named.len() > 0)
            ==> trigger_code(s) is Err,
{
    reveal_strlit("cross");
    reveal_strlit("rise");
    reveal_strlit("fall");
    reveal_strlit("delta");
    reveal_strlit("any_change");
    reveal_strlit("enter");
    reveal_strlit("exit");
    assert("any_change"@.len() == 10 && "cross"@.len() == 5 && "delta"@.len() == 5);
    assert("enter"@[0] != "cross"@[0] && "enter"@[0] != "delta"@[0] && "enter"@.len() == 5);
    assert("exit"@[0] != "rise"@[0] && "exit"@[0] != "fall"@[0] && "exit"@.len() == 4);
}

/// The items of a list of rules are its tokens without the commas, cut where those stand; a
/// comma behind the last item makes no other.
pub proof fn law_rules_are_cut_at_commas(list: Seq<Tok>)
    ensures
        comma_pieces(list).flatten() == list.filter(|t: Tok| !comma(t)),
        comma_pieces(list).len() == list.filter(|t: Tok| comma(t)).len() + 1,
        list.len() > 0 && comma(list.last()) ==> list_items(list) == comma_pieces(list.drop_last()),
        list.len() > 0 && !comma(list.last()) ==> list_items(list) == comma_pieces(list),
        list_items(Seq::empty()).len() == 0,
        forall|joint: bool| #[trigger] comma(Tok::Punct(',', joint)),
        forall|c: char, joint: bool| c != ',' ==> !#[trigger] comma(Tok::Punct(c, joint)),
    decreases list.len(),
{
    reveal(Seq::filter);
    let p = comma_pieces(list);
    let other = |t: Tok| !comma(t);
    let cut = |t: Tok| comma(t);
    let none = Seq::<Tok>::empty();
    assert(comma_pieces(none) =~= seq![none]);
    if list.len() == 0 {
        assert(list =~= none);
        p.lemma_flatten_one_element();
    } else {
        let d = list.drop_last();
        let before = comma_pieces(d);
        law_rules_are_cut_at_commas(d);
        if comma(list.last()) {
            before.lemma_flatten_push(none);
            assert(before.flatten() + none =~= before.flatten());
            assert(p.drop_last() =~= before);
        } else {
            let last = before.last();
            let front = before.drop_last();
            front.lemma_flatten_push(last);
            assert(front.push(last) =~= before);
            front.lemma_flatten_push(last.push(list.last()));
            assert(front.flatten() + last.push(list.last()) =~= (front.flatten() + last).push(
                list.last(),
            ));
        }
    }
}

/// The rules of a list are read item by item, in their order; without any the list is refused.
pub proof fn law_rules_are_read_item_by_item(
    items: Seq<Seq<Tok>>,
    readings: Seq<Result<Seq<int>, Seq<char>>>,
)
    ensures
        triggers_of(items, readings) is Ok <==> forall|i: int|
            0 <= i < items.len() ==> trigger_of(#[trigger] items[i], readings[i]) is Ok,
        triggers_of(items, readings) matches Ok(v) ==> v.len() == items.len() && forall|i: int|
            0 <= i < items.len() ==> trigger_of(#[trigger] items[i], readings[i]) == Ok::<
                SpecView,
                Seq<char>,
            >(v[i]),
        log_on_of(Seq::empty(), readings) is Err,
    decreases items.len(),
{
    assert(comma_pieces(Seq::empty()) =~= seq![Seq::empty()]);
    if items.len() > 0 {
        let d = items.drop_last();
        law_rules_are_read_item_by_item(d, readings);
        assert(forall|i: int| 0 <= i < d.len() ==> #[trigger] d[i] == items[i]);
        if let Ok(v) = triggers_of(items, readings) {
            assert forall|i: int| 0 <= i < items.len() implies trigger_of(
                #[trigger] items[i],
                readings[i],
            ) == Ok::<SpecView, Seq<char>>(v[i]) by {
                if i < d.len() {
                    let same = d[i];
                }
            }
        } else if forall|i: int|
            0 <= i < items.len() ==> trigger_of(#[trigger] items[i], readings[i]) is Ok {
            let last = items[items.len() - 1];
            assert forall|i: int| 0 <= i < d.len() implies trigger_of(
                #[trigger] d[i],
                readings[i],
            ) is Ok by {
                let same = items[i];
            }
        }
    }
}

/// Every argument of a rule is kept: one with a name and `=` in front under that name, any
/// other by its place.
pub proof fn law_arguments_are_kept(s: SpecView, list: Seq<Tok>, ends: Seq<int>, n: int, k: int)
    requires
        0 <= k < n,
    ensures
        ({
            let from = if k == 0 {
                0
            } else {
                ends[k - 1] + 1
            };
            let r = with_arguments(s, list, ends, n);
            if is_named(list, from) {
                r.named.contains(
                    (list[from]->Ident_0@, toks_text(list.subrange(from + 2, ends[k]))),
                )
            } else {
                r.positional.contains(toks_text(list.subrange(from, ends[k])))
            }
        }),
        with_arguments(s, list, ends, n).name == s.name,
        with_arguments(s, list, ends, n).named.len() + with_arguments(
            s,
            list,
            ends,
            n,
        ).positional.len() == s.named.len() + s.positional.len() + n,
    decreases n,
{
    let b = with_arguments(s, list, ends, n - 1);
    let r = with_arguments(s, list, ends, n);
    if n == 1 {
        assert(b == s);
    } else {
        law_arguments_are_kept(
            s,
            list,
            ends,
            n - 1,
            if k == n - 1 {
                0
            } else {
                k
            },
        );
    }
    let from = argument_start(ends, k);
    let text = toks_text(list.subrange(value_start(list, from), ends[k]));
    if k == n - 1 {
        if is_named(list, from) {
            assert(r.named[r.named.len() - 1] == (list[from]->Ident_0@, text));
        } else {
            assert(r.positional[r.positional.len() - 1] == text);
        }
    } else if is_named(list, from) {
        let i = choose|i: int|
            0 <= i < b.named.len() && b.named[i] == (list[from]->Ident_0@, text);
        assert(r.named[i] == b.named[i]);
    } else {
        let i = choose|i: int| 0 <= i < b.positional.len() && b.positional[i] == text;
        assert(r.positional[i] == b.positional[i]);
    }
}

/// Tokens are written with a space between each two, unless the first belongs to the second.
pub proof fn law_tokens_are_written_apart(list: Seq<Tok>, t: Tok, c: char, s: String)
    ensures
        list.len() > 0 ==> toks_text(list.push(t)) == toks_text(list) + (
        if list.last() matches Tok::Punct(_, true) {
            Seq::empty()
        } else {
            " "@
        }) + tok_text(t),
        toks_text(seq![t]) == tok_text(t),
        tok_text(Tok::Punct(c, true)) == seq![c],
        tok_text(Tok::Ident(s)) == s@,
        tok_text(Tok::Lit(s)) == s@,
{
    assert(list.push(t).drop_last() =~= list);
}

// ---- whole expansions ----------------------------------------------------------------------

/// A text with two others in it, and what stands around them.
pub open spec fn around(
    a: Seq<char>,
    x: Seq<char>,
    b: Seq<char>,
    y: Seq<char>,
    c: Seq<char>,
) -> Seq<char> {
    a + x + b + y + c
}

/// The code of a configuration holds the code of its elements and then that of its loading;
/// the rest does not depend on the fields.
pub proof fn law_configurations_hold_their_elements(
    d: StructDecl,
    other: StructDecl,
    e: Seq<char>,
    f: Seq<char>,
)
    requires
        d.ident@ == other.ident@,
        d.attrs == other.attrs,
    ensures
        exists|a: Seq<char>, b: Seq<char>, c: Seq<char>|
            config_code(d, e) == #[trigger] around(a, e, b, loads(d.fields@), c) && config_code(
                other,
                f,
            ) == around(a, f, b, loads(other.fields@), c),
        exists|a: Seq<char>, b: Seq<char>, c: Seq<char>|
            object_code(d, e) == #[trigger] around(a, e, b, loads(d.fields@), c) && object_code(
                other,
                f,
            ) == around(a, f, b, loads(other.fields@), c),
{
    let a = "const _: () = { fn __config_elements() -> ::std::vec::Vec<::doover::config::ElementSchema> { let mut __els = ::std::vec::Vec::new(); "@;
    let b = " __els } #[automatically_derived] impl ::doover::config::ConfigSchema for "@ + d.ident@
        + " { fn schema() -> ::doover::config::SchemaModel { let mut __m = ::doover::config::SchemaModel::new(); "@
        + schema_title(d.attrs) + flag_code(
        d.attrs.advanced,
        "__m.advanced = ::core::option::Option::Some(true); "@,
    )
        + "for __el in __config_elements() { __m.push(__el); } __m } fn from_value(__v: &::doover::__private::serde_json::Value) -> ::doover::error::Result<Self> { let __els = __config_elements(); ::core::result::Result::Ok(Self { "@;
    let c = "}) } } };"@;
    assert(config_code(d, e) =~= around(a, e, b, loads(d.fields@), c));
    assert(config_code(other, f) =~= around(a, f, b, loads(other.fields@), c));
    let g = "const _: () = { fn __object_elements() -> ::std::vec::Vec<::doover::config::ElementSchema> { let mut __els = ::std::vec::Vec::new(); "@;
    let h = " __els } #[automatically_derived] impl ::doover::config::ConfigElementBuild for "@
        + d.ident@
        + " { fn element(title: &str, name: &str) -> ::doover::config::ElementSchema { ::doover::config::ElementSchema::object(title, name, __object_elements()) } } #[automatically_derived] impl ::doover::config::FromConfigValue for "@
        + d.ident@
        + " { fn from_config_value(__v: &::doover::__private::serde_json::Value) -> ::doover::error::Result<Self> { let __els = __object_elements(); ::core::result::Result::Ok(Self { "@;
    assert(object_code(d, e) =~= around(g, e, h, loads(d.fields@), c));
    assert(object_code(other, f) =~= around(g, f, h, loads(other.fields@), c));
}

/// A configuration that declares a name has the code of one that does not, with what sets its
/// title put in; one that is advanced says so in the same way.
pub proof fn law_configurations_say_their_title(d: StructDecl, e: Seq<char>, n: String)
    ensures
        adds(
            config_code(StructDecl { attrs: FieldAttrs { name: Some(n), ..d.attrs }, ..d }, e),
            config_code(StructDecl { attrs: FieldAttrs { name: None, ..d.attrs }, ..d }, e),
            "__m.title = ::core::option::Option::Some("@ + debug_text(n@) + ".to_string()); "@,
        ),
        adds(
            config_code(StructDecl { attrs: FieldAttrs { advanced: true, ..d.attrs }, ..d }, e),
            config_code(StructDecl { attrs: FieldAttrs { advanced: false, ..d.attrs }, ..d }, e),
            "__m.advanced = ::core::option::Option::Some(true); "@,
        ),
{
    let a = "const _: () = { fn __config_elements() -> ::std::vec::Vec<::doover::config::ElementSchema> { let mut __els = ::std::vec::Vec::new(); "@
        + e + " __els } #[automatically_derived] impl ::doover::config::ConfigSchema for "@
        + d.ident@
        + " { fn schema() -> ::doover::config::SchemaModel { let mut __m = ::doover::config::SchemaModel::new(); "@;
    let end = "for __el in __config_elements() { __m.push(__el); } __m } fn from_value(__v: &::doover::__private::serde_json::Value) -> ::doover::error::Result<Self> { let __els = __config_elements(); ::core::result::Result::Ok(Self { "@
        + loads(d.fields@) + "}) } } };"@;
    let flag = flag_code(d.attrs.advanced, "__m.advanced = ::core::option::Option::Some(true); "@);
    let title = "__m.title = ::core::option::Option::Some("@ + debug_text(n@) + ".to_string()); "@;
    let named = StructDecl { attrs: FieldAttrs { name: Some(n), ..d.attrs }, ..d };
    let bare = StructDecl { attrs: FieldAttrs { name: None, ..d.attrs }, ..d };
    assert(config_code(named, e) =~= a + title + (flag + end));
    assert(config_code(bare, e) =~= a + (flag + end));
    lemma_adds(a, flag + end, title);
    let part = "__m.advanced = ::core::option::Option::Some(true); "@;
    let on = StructDecl { attrs: FieldAttrs { advanced: true, ..d.attrs }, ..d };
    let off = StructDecl { attrs: FieldAttrs { advanced: false, ..d.attrs }, ..d };
    let front = a + schema_title(d.attrs);
    assert(config_code(on, e) =~= front + part + end);
    assert(config_code(off, e) =~= front + end);
    lemma_adds(front, end, part);
}

/// The code of tags holds the code of their attaching and then their names, the live ones
/// last.
pub proof fn law_tags_hold_their_fields(ident: Seq<char>, c: TagsCode)
    ensures
        adds(
            tags_code(ident, c),
            tags_code(ident, TagsCode { attached: Seq::empty(), ..c }),
            c.attached,
        ),
        adds(
            tags_code(ident, c),
            tags_code(ident, TagsCode { detached: Seq::empty(), ..c }),
            c.detached,
        ),
        adds(
            tags_code(ident, c),
            tags_code(ident, TagsCode { names: Seq::empty(), ..c }),
            joined(c.names, ", "@),
        ),
        adds(
            tags_code(ident, c),
            tags_code(ident, TagsCode { live_names: Seq::empty(), ..c }),
            joined(c.live_names, ", "@),
        ),
{
    let p = "const _: () = { #[automatically_derived] impl ::doover::tags::TagsCollection for "@
        + ident
        + " { fn attach(__rt: ::std::sync::Arc<::doover::tags::TagsRuntime>) -> Self { Self { "@;
    let q = "} } fn detached() -> Self { Self { "@;
    let r = "} } fn tag_names() -> ::std::vec::Vec<&'static str> { ::std::vec!["@;
    let s = "] } fn live_tag_names() -> ::std::vec::Vec<&'static str> { ::std::vec!["@;
    let t = "] } } };"@;
    let names = joined(c.names, ", "@);
    let lives = joined(c.live_names, ", "@);
    let none = Seq::<char>::empty();
    assert(joined(Seq::<Seq<char>>::empty(), ", "@) == none);
    let b1 = q + c.detached + r + names + s + lives + t;
    assert(tags_code(ident, c) =~= p + c.attached + b1);
    assert(tags_code(ident, TagsCode { attached: none, ..c }) =~= p + b1);
    lemma_adds(p, b1, c.attached);
    let a2 = p + c.attached + q;
    let b2 = r + names + s + lives + t;
    assert(tags_code(ident, c) =~= a2 + c.detached + b2);
    assert(tags_code(ident, TagsCode { detached: none, ..c }) =~= a2 + b2);
    lemma_adds(a2, b2, c.detached);
    let a3 = a2 + c.detached + r;
    let b3 = s + lives + t;
    assert(tags_code(ident, c) =~= a3 + names + b3);
    assert(tags_code(ident, TagsCode { names: Seq::empty(), ..c }) =~= a3 + b3);
    lemma_adds(a3, b3, names);
    let a4 = a3 + names + s;
    assert(tags_code(ident, c) =~= a4 + lives + t);
    assert(tags_code(ident, TagsCode { live_names: Seq::empty(), ..c }) =~= a4 + t);
    lemma_adds(a4, t, lives);
}

/// The texts between two others, one behind the other.
pub open spec fn each_between(
    fields: Seq<Seq<char>>,
    start: Seq<char>,
    end: Seq<char>,
) -> Seq<char> {
    fields.map_values(|f: Seq<char>| start + f + end).flatten()
}

/// The code of a user interface lists every field twice, shared and exclusive, in their order.
pub proof fn law_interfaces_list_their_fields(ident: Seq<char>, fields: Seq<Seq<char>>)
    ensures
        exists|a: Seq<char>, b: Seq<char>, c: Seq<char>|
            ui_code(ident, fields) == #[trigger] around(
                a,
                each_between(fields, "&self."@, " as &dyn ::doover::ui::UiElement, "@),
                b,
                each_between(fields, "&mut self."@, " as &mut dyn ::doover::ui::UiElement, "@),
                c,
            ) && ui_code(ident, Seq::empty()) == around(a, Seq::empty(), b, Seq::empty(), c),
{
    let a = "const _: () = { #[automatically_derived] impl ::doover::ui::UiTree for "@ + ident
        + " { fn children(&self) -> ::std::vec::Vec<&dyn ::doover::ui::UiElement> { ::std::vec!["@;
    let b = "] } fn children_mut(&mut self) -> ::std::vec::Vec<&mut dyn ::doover::ui::UiElement> { ::std::vec!["@;
    let c = "] } } };"@;
    let x = each_between(fields, "&self."@, " as &dyn ::doover::ui::UiElement, "@);
    let y = each_between(fields, "&mut self."@, " as &mut dyn ::doover::ui::UiElement, "@);
    law_each_field_is_written(fields, "&self."@, " as &dyn ::doover::ui::UiElement, "@);
    law_each_field_is_written(fields, "&mut self."@, " as &mut dyn ::doover::ui::UiElement, "@);
    assert(ui_code(ident, fields) =~= around(a, x, b, y, c));
    assert(ui_code(ident, Seq::empty()) =~= around(a, Seq::empty(), b, Seq::empty(), c));
}

/// Every declared tag is built twice, attached to its manager and alone, each field by its own
/// name and in their order.
pub proof fn law_declared_tags_are_built_twice(fields: Seq<TagField>)
    requires
        fields_code(fields) is Ok,
    ensures
        fields_code(fields)->Ok_0.attached == fields.map_values(
            |f: TagField|
                f.ident@ + ": "@ + f.code()->Ok_0 + ".attached(::std::sync::Arc::clone(&__rt)), "@,
        ).flatten(),
        fields_code(fields)->Ok_0.detached == fields.map_values(
            |f: TagField| f.ident@ + ": "@ + f.code()->Ok_0 + ", "@,
        ).flatten(),
    decreases fields.len(),
{
    let g = |f: TagField|
        f.ident@ + ": "@ + f.code()->Ok_0 + ".attached(::std::sync::Arc::clone(&__rt)), "@;
    let h = |f: TagField| f.ident@ + ": "@ + f.code()->Ok_0 + ", "@;
    if fields.len() == 0 {
        assert(fields.map_values(g) =~= Seq::empty());
        assert(fields.map_values(h) =~= Seq::empty());
    } else {
        let d = fields.drop_last();
        law_declared_tags_are_built_twice(d);
        lemma_flattened_with_last(fields.map_values(g), d.map_values(g), g(fields.last()));
        lemma_flattened_with_last(fields.map_values(h), d.map_values(h), h(fields.last()));
    }
}

/// The options of a tag are read one by one, each after those before it, from a tag without
/// any: not live, without a name of its own, a default or rules.
pub proof fn law_tag_options_add_up(
    list: Seq<(String, TagValueTokens)>,
    o: (String, TagValueTokens),
    readings: Seq<Seq<Result<Seq<int>, Seq<char>>>>,
)
    ensures
        tag_attrs_of(Seq::empty(), readings) == Ok::<TagAttrsView, Seq<char>>(
            TagAttrsView { live: false, name: None, default: None, log_on: Seq::empty() },
        ),
        tag_attrs_of(list, readings) matches Ok(a) ==> tag_attrs_of(list.push(o), readings)
            == with_tag_option(a, o.0@, o.1, readings[list.len() as int]),
        tag_attrs_of(list, readings) matches Err(m) ==> tag_attrs_of(list.push(o), readings)
            == Err::<TagAttrsView, Seq<char>>(m),
{
    assert(list.push(o).drop_last() =~= list);
}

} // verus!
