//! What the document of a schema holds under each of its keys.
use vstd::prelude::*;

use crate::config::schema::{
    bool_doc, choice_type, count_doc, distinct_names, law_properties_hold_every_element, law_required_names,
    number_doc, numeric_entries, property_entries, required_names, text_doc, type_doc, ChoiceType,
    ElementKind, ElementSchema, NumericBounds, SchemaModel,
};
use crate::json::{
    at, docs, field, lemma_at_add, lemma_at_none, lemma_at_one, lemma_first_is_position,
    lemma_position, opt_doc, Entries, Json,
};
use crate::models::{lemma_at_optional, optional_entry};

verus! {

proof fn lemma_words()
    ensures
        "title"@.len() == 5 && "title"@[0] == 't',
        "items"@.len() == 5 && "items"@[0] == 'i',
        "type"@.len() == 4 && "type"@[0] == 't',
        "enum"@.len() == 4 && "enum"@[0] == 'e',
        "x-name"@.len() == 6 && "x-name"@[0] == 'x',
        "format"@.len() == 6 && "format"@[0] == 'f',
        "length"@.len() == 6 && "length"@[0] == 'l',
        "x-hidden"@.len() == 8 && "x-hidden"@[0] == 'x',
        "minItems"@.len() == 8 && "minItems"@[0] == 'm' && "minItems"@[1] == 'i',
        "maxItems"@.len() == 8 && "maxItems"@[0] == 'm' && "maxItems"@[1] == 'a',
        "required"@.len() == 8 && "required"@[0] == 'r',
        "x-required"@.len() == 10 && "x-required"@[0] == 'x' && "x-required"@[2] == 'r',
        "x-position"@.len() == 10 && "x-position"@[0] == 'x' && "x-position"@[2] == 'p',
        "x-advanced"@.len() == 10 && "x-advanced"@[0] == 'x' && "x-advanced"@[2] == 'a',
        "deprecated"@.len() == 10 && "deprecated"@[0] == 'd',
        "multipleOf"@.len() == 10 && "multipleOf"@[0] == 'm',
        "properties"@.len() == 10 && "properties"@[0] == 'p',
        "default"@.len() == 7 && "default"@[0] == 'd',
        "minimum"@.len() == 7 && "minimum"@[0] == 'm' && "minimum"@[1] == 'i',
        "maximum"@.len() == 7 && "maximum"@[0] == 'm' && "maximum"@[1] == 'a',
        "pattern"@.len() == 7 && "pattern"@[0] == 'p',
        "description"@.len() == 11 && "description"@[0] == 'd',
        "uniqueItems"@.len() == 11 && "uniqueItems"@[0] == 'u',
        "exclusiveMinimum"@.len() == 16 && "exclusiveMinimum"@[10] == 'i',
        "exclusiveMaximum"@.len() == 16 && "exclusiveMaximum"@[10] == 'a',
        "additionalElements"@.len() == 18 && "additionalElements"@[0] == 'a',
        "x-collapsible"@.len() == 13,
        "x-defaultCollapsed"@.len() == 18 && "x-defaultCollapsed"@[0] == 'x',
{
    reveal_strlit("title");
    reveal_strlit("items");
    reveal_strlit("type");
    reveal_strlit("enum");
    reveal_strlit("x-name");
    reveal_strlit("format");
    reveal_strlit("length");
    reveal_strlit("x-hidden");
    reveal_strlit("minItems");
    reveal_strlit("maxItems");
    reveal_strlit("required");
    reveal_strlit("x-required");
    reveal_strlit("x-position");
    reveal_strlit("x-advanced");
    reveal_strlit("deprecated");
    reveal_strlit("multipleOf");
    reveal_strlit("properties");
    reveal_strlit("default");
    reveal_strlit("minimum");
    reveal_strlit("maximum");
    reveal_strlit("pattern");
    reveal_strlit("description");
    reveal_strlit("uniqueItems");
    reveal_strlit("exclusiveMinimum");
    reveal_strlit("exclusiveMaximum");
    reveal_strlit("additionalElements");
    reveal_strlit("x-collapsible");
    reveal_strlit("x-defaultCollapsed");
}

proof fn lemma_base_at(e: ElementSchema, q: Seq<char>)
    ensures
        at(e.base_entries(), q) == (if q == "title"@ {
            Some(Json::Str(e.title@))
        } else if q == "x-name"@ {
            Some(Json::Str(e.name@))
        } else if q == "x-hidden"@ {
            Some(Json::Bool(e.hidden))
        } else if q == "format"@ {
            text_doc(e.format)
        } else if q == "type"@ {
            type_doc(e.kind.type_text(), e.required_here())
        } else if q == "x-required"@ {
            Some(Json::Bool(e.required_here()))
        } else if q == "description"@ {
            text_doc(e.description)
        } else if q == "default"@ {
            opt_doc(e.default)
        } else if q == "x-position"@ {
            match e.position {
                Some(p) => Some(Json::Int(p as int)),
                None => None,
            }
        } else if q == "deprecated"@ {
            bool_doc(e.deprecated)
        } else if q == "x-advanced"@ {
            bool_doc(e.advanced)
        } else {
            None
        }),
{
    lemma_words();
    let pos = match e.position {
        Some(p) => Some(Json::Int(p as int)),
        None => None,
    };
    let a0 = seq![
        ("title"@, Json::Str(e.title@)),
        ("x-name"@, Json::Str(e.name@)),
        ("x-hidden"@, Json::Bool(e.hidden)),
    ];
    lemma_position(a0, q);
    assert(a0[0].0 == "title"@ && a0[1].0 == "x-name"@ && a0[2].0 == "x-hidden"@);
    let b1 = optional_entry("format"@, text_doc(e.format));
    lemma_at_optional("format"@, text_doc(e.format), q);
    lemma_at_add(a0, b1, q);
    let a1 = a0 + b1;
    let ty = type_doc(e.kind.type_text(), e.required_here());
    let b2 = optional_entry("type"@, ty);
    lemma_at_optional("type"@, ty, q);
    lemma_at_add(a1, b2, q);
    let a2 = a1 + b2;
    let b3 = seq![("x-required"@, Json::Bool(e.required_here()))];
    lemma_at_one("x-required"@, Json::Bool(e.required_here()), q);
    lemma_at_add(a2, b3, q);
    let a3 = a2 + b3;
    let b4 = optional_entry("description"@, text_doc(e.description));
    lemma_at_optional("description"@, text_doc(e.description), q);
    lemma_at_add(a3, b4, q);
    let a4 = a3 + b4;
    let b5 = optional_entry("default"@, opt_doc(e.default));
    lemma_at_optional("default"@, opt_doc(e.default), q);
    lemma_at_add(a4, b5, q);
    let a5 = a4 + b5;
    let b6 = optional_entry("x-position"@, pos);
    lemma_at_optional("x-position"@, pos, q);
    lemma_at_add(a5, b6, q);
    let a6 = a5 + b6;
    let b7 = optional_entry("deprecated"@, bool_doc(e.deprecated));
    lemma_at_optional("deprecated"@, bool_doc(e.deprecated), q);
    lemma_at_add(a6, b7, q);
    let a7 = a6 + b7;
    lemma_at_optional("x-advanced"@, bool_doc(e.advanced), q);
    lemma_at_add(a7, optional_entry("x-advanced"@, bool_doc(e.advanced)), q);
}

/// What the kind of an element adds to its document.
pub open spec fn kind_entries(k: ElementKind) -> Entries {
    match k {
        ElementKind::Integer(b) => numeric_entries(b),
        ElementKind::Number(b) => numeric_entries(b),
        ElementKind::String(b) => optional_entry("length"@, count_doc(b.length)) + optional_entry(
            "pattern"@,
            text_doc(b.pattern),
        ),
        ElementKind::Array { items, min_items, max_items, unique_items } => seq![
            ("items"@, items.doc()),
        ] + optional_entry("minItems"@, count_doc(min_items)) + optional_entry(
            "maxItems"@,
            count_doc(max_items),
        ) + optional_entry("uniqueItems"@, bool_doc(unique_items)),
        ElementKind::Object { properties, additional_elements, collapsible, default_collapsed } => seq![
            ("properties"@, Json::Obj(property_entries(properties@))),
            ("additionalElements"@, additional_elements@),
            ("required"@, Json::Arr(required_names(properties@))),
            ("x-collapsible"@, Json::Bool(collapsible)),
            ("x-defaultCollapsed"@, Json::Bool(default_collapsed)),
        ],
        _ => Seq::empty(),
    }
}

proof fn lemma_bounds_at(b: NumericBounds, q: Seq<char>)
    ensures
        at(numeric_entries(b), q) == (if q == "minimum"@ {
            number_doc(b.minimum)
        } else if q == "exclusiveMinimum"@ {
            number_doc(b.exclusive_minimum)
        } else if q == "maximum"@ {
            number_doc(b.maximum)
        } else if q == "exclusiveMaximum"@ {
            number_doc(b.exclusive_maximum)
        } else if q == "multipleOf"@ {
            number_doc(b.multiple_of)
        } else {
            None
        }),
{
    lemma_words();
    let a0 = optional_entry("minimum"@, number_doc(b.minimum));
    lemma_at_optional("minimum"@, number_doc(b.minimum), q);
    let b1 = optional_entry("exclusiveMinimum"@, number_doc(b.exclusive_minimum));
    lemma_at_optional("exclusiveMinimum"@, number_doc(b.exclusive_minimum), q);
    lemma_at_add(a0, b1, q);
    let a1 = a0 + b1;
    let b2 = optional_entry("maximum"@, number_doc(b.maximum));
    lemma_at_optional("maximum"@, number_doc(b.maximum), q);
    lemma_at_add(a1, b2, q);
    let a2 = a1 + b2;
    let b3 = optional_entry("exclusiveMaximum"@, number_doc(b.exclusive_maximum));
    lemma_at_optional("exclusiveMaximum"@, number_doc(b.exclusive_maximum), q);
    lemma_at_add(a2, b3, q);
    let a3 = a2 + b3;
    lemma_at_optional("multipleOf"@, number_doc(b.multiple_of), q);
    lemma_at_add(a3, optional_entry("multipleOf"@, number_doc(b.multiple_of)), q);
}

proof fn lemma_doc_at(e: ElementSchema, q: Seq<char>)
    ensures
        e.doc() is Obj,
        field(e.doc(), q) == (if at(e.choice_entries(), q) is Some {
            at(e.choice_entries(), q)
        } else if at(e.base_entries(), q) is Some {
            at(e.base_entries(), q)
        } else {
            at(kind_entries(e.kind), q)
        }),
{
    let head = e.choice_entries() + e.base_entries();
    lemma_at_add(e.choice_entries(), e.base_entries(), q);
    lemma_at_add(head, kind_entries(e.kind), q);
    assert(e.doc()->Obj_0 =~= head + kind_entries(e.kind));
}

proof fn lemma_choices_at(e: ElementSchema, q: Seq<char>)
    ensures
        at(e.choice_entries(), q) == (match e.kind {
            ElementKind::Enum { choices, .. } => if q == "enum"@ {
                Some(Json::Arr(docs(choices@)))
            } else {
                None
            },
            _ => None,
        }),
{
    match e.kind {
        ElementKind::Enum { choices, .. } => lemma_at_one("enum"@, Json::Arr(docs(choices@)), q),
        _ => lemma_at_none(q),
    }
}

/// Whether an element is required: as it says, and if it does not say, exactly if it has no
/// default.
pub open spec fn requires_value(e: ElementSchema) -> bool {
    (e.required is Some && e.required.unwrap()) || (e.required is None && e.default is None)
}

/// The document of an element says what the element is: its title and name, whether it is
/// hidden, required, deprecated and advanced, its format, description, default and
/// position. What is not set is not there.
pub proof fn law_documents_say_what_elements_are(e: ElementSchema)
    ensures
        field(e.doc(), "title"@) == Some(Json::Str(e.title@)),
        field(e.doc(), "x-name"@) == Some(Json::Str(e.name@)),
        field(e.doc(), "x-hidden"@) == Some(Json::Bool(e.hidden)),
        field(e.doc(), "x-required"@) == Some(Json::Bool(requires_value(e))),
        e.format is None ==> field(e.doc(), "format"@) is None,
        e.format matches Some(t) ==> field(e.doc(), "format"@) == Some(Json::Str(t@)),
        e.description is None ==> field(e.doc(), "description"@) is None,
        e.description matches Some(t) ==> field(e.doc(), "description"@) == Some(Json::Str(t@)),
        e.default is None ==> field(e.doc(), "default"@) is None,
        e.default matches Some(d) ==> field(e.doc(), "default"@) == Some(d@),
        e.position is None ==> field(e.doc(), "x-position"@) is None,
        e.position matches Some(p) ==> field(e.doc(), "x-position"@) == Some(Json::Int(p as int)),
        e.deprecated is None ==> field(e.doc(), "deprecated"@) is None,
        e.deprecated matches Some(b) ==> field(e.doc(), "deprecated"@) == Some(Json::Bool(b)),
        e.advanced is None ==> field(e.doc(), "x-advanced"@) is None,
        e.advanced matches Some(b) ==> field(e.doc(), "x-advanced"@) == Some(Json::Bool(b)),
{
    lemma_words();
    assert forall|q: Seq<char>|
        q == "title"@ || q == "x-name"@ || q == "x-hidden"@ || q == "x-required"@ || q == "format"@
            || q == "description"@ || q == "default"@ || q == "x-position"@ || q == "deprecated"@ || q
            == "x-advanced"@ implies #[trigger] field(e.doc(), q) == at(e.base_entries(), q) by {
        lemma_doc_at(e, q);
        lemma_choices_at(e, q);
        lemma_base_at(e, q);
        lemma_kind_at(e.kind, q);
    }
    lemma_base_at(e, "title"@);
    lemma_base_at(e, "x-name"@);
    lemma_base_at(e, "x-hidden"@);
    lemma_base_at(e, "x-required"@);
    lemma_base_at(e, "format"@);
    lemma_base_at(e, "description"@);
    lemma_base_at(e, "default"@);
    lemma_base_at(e, "x-position"@);
    lemma_base_at(e, "deprecated"@);
    lemma_base_at(e, "x-advanced"@);
}

proof fn lemma_kind_at(k: ElementKind, q: Seq<char>)
    ensures
        at(kind_entries(k), q) == (match k {
            ElementKind::Integer(b) => at(numeric_entries(b), q),
            ElementKind::Number(b) => at(numeric_entries(b), q),
            ElementKind::String(b) => if q == "length"@ {
                count_doc(b.length)
            } else if q == "pattern"@ {
                text_doc(b.pattern)
            } else {
                None
            },
            ElementKind::Array { items, min_items, max_items, unique_items } => if q == "items"@ {
                Some(items.doc())
            } else if q == "minItems"@ {
                count_doc(min_items)
            } else if q == "maxItems"@ {
                count_doc(max_items)
            } else if q == "uniqueItems"@ {
                bool_doc(unique_items)
            } else {
                None
            },
            ElementKind::Object {
                properties,
                additional_elements,
                collapsible,
                default_collapsed,
            } => if q == "properties"@ {
                Some(Json::Obj(property_entries(properties@)))
            } else if q == "additionalElements"@ {
                Some(additional_elements@)
            } else if q == "required"@ {
                Some(Json::Arr(required_names(properties@)))
            } else if q == "x-collapsible"@ {
                Some(Json::Bool(collapsible))
            } else if q == "x-defaultCollapsed"@ {
                Some(Json::Bool(default_collapsed))
            } else {
                None
            },
            _ => None,
        }),
        at(kind_entries(k), q) is Some ==> q != "title"@ && q != "x-name"@ && q != "x-hidden"@ && q
            != "x-required"@ && q != "format"@ && q != "description"@ && q != "default"@ && q
            != "x-position"@ && q != "deprecated"@ && q != "x-advanced"@ && q != "type"@ && q
            != "enum"@,
{
    lemma_words();
    match k {
        ElementKind::Integer(b) => lemma_bounds_at(b, q),
        ElementKind::Number(b) => lemma_bounds_at(b, q),
        ElementKind::String(b) => {
            lemma_at_optional("length"@, count_doc(b.length), q);
            lemma_at_optional("pattern"@, text_doc(b.pattern), q);
            lemma_at_add(
                optional_entry("length"@, count_doc(b.length)),
                optional_entry("pattern"@, text_doc(b.pattern)),
                q,
            );
        },
        ElementKind::Array { items, min_items, max_items, unique_items } => {
            let a0 = seq![("items"@, items.doc())];
            lemma_at_one("items"@, items.doc(), q);
            let b1 = optional_entry("minItems"@, count_doc(min_items));
            lemma_at_optional("minItems"@, count_doc(min_items), q);
            lemma_at_add(a0, b1, q);
            let b2 = optional_entry("maxItems"@, count_doc(max_items));
            lemma_at_optional("maxItems"@, count_doc(max_items), q);
            lemma_at_add(a0 + b1, b2, q);
            lemma_at_optional("uniqueItems"@, bool_doc(unique_items), q);
            lemma_at_add(
                a0 + b1 + b2,
                optional_entry("uniqueItems"@, bool_doc(unique_items)),
                q,
            );
        },
        ElementKind::Object { properties, additional_elements, collapsible, default_collapsed } => {
            let e = kind_entries(k);
            lemma_position(e, q);
            assert(e[0].0 == "properties"@ && e[1].0 == "additionalElements"@ && e[2].0
                == "required"@ && e[3].0 == "x-collapsible"@ && e[4].0 == "x-defaultCollapsed"@);
        },
        _ => lemma_at_none(q),
    }
}

/// The type of an element stands alone if the element is required and beside null if not:
/// integer, number, boolean, string, array or object by its kind, and of a choice string
/// if all its choices are texts, number if all are doubles, and nothing otherwise.
pub proof fn law_documents_say_the_type(e: ElementSchema)
    ensures
        ({
            let name = match e.kind {
                ElementKind::Integer(_) => Some("integer"@),
                ElementKind::Number(_) => Some("number"@),
                ElementKind::Boolean => Some("boolean"@),
                ElementKind::String(_) => Some("string"@),
                ElementKind::Enum { ty: ChoiceType::Text, .. } => Some("string"@),
                ElementKind::Enum { ty: ChoiceType::Double, .. } => Some("number"@),
                ElementKind::Enum { ty: ChoiceType::Mixed, .. } => None,
                ElementKind::Array { .. } => Some("array"@),
                ElementKind::Object { .. } => Some("object"@),
            };
            &&& name is None ==> field(e.doc(), "type"@) is None
            &&& name is Some && requires_value(e) ==> field(e.doc(), "type"@) == Some(
                Json::Str(name.unwrap()),
            )
            &&& name is Some && !requires_value(e) ==> field(e.doc(), "type"@) == Some(
                Json::Arr(seq![Json::Str(name.unwrap()), Json::Str("null"@)]),
            )
        }),
{
    lemma_words();
    lemma_doc_at(e, "type"@);
    lemma_choices_at(e, "type"@);
    lemma_base_at(e, "type"@);
    lemma_kind_at(e.kind, "type"@);
}

/// A number's document has its bounds, each under its own key, and only those that are
/// set; a text's has its length and its pattern; a choice's has its choices, in order.
pub proof fn law_documents_say_the_bounds(e: ElementSchema)
    ensures
        (e.kind matches ElementKind::Integer(b) ==> bounds_written(e.doc(), b)),
        (e.kind matches ElementKind::Number(b) ==> bounds_written(e.doc(), b)),
        (e.kind matches ElementKind::String(b) ==> {
            &&& b.length is None ==> field(e.doc(), "length"@) is None
            &&& b.length matches Some(n) ==> field(e.doc(), "length"@) == Some(Json::Int(n as int))
            &&& b.pattern is None ==> field(e.doc(), "pattern"@) is None
            &&& b.pattern matches Some(t) ==> field(e.doc(), "pattern"@) == Some(Json::Str(t@))
        }),
        (e.kind matches ElementKind::Enum { choices, .. } ==> (field(
            e.doc(),
            "enum"@,
        ) matches Some(Json::Arr(list)) && list.len() == choices@.len() && forall|i: int|
            0 <= i < list.len() ==> #[trigger] list[i] == choices@[i]@)),
{
    lemma_words();
    assert forall|q: Seq<char>|
        q == "minimum"@ || q == "maximum"@ || q == "exclusiveMinimum"@ || q == "exclusiveMaximum"@
            || q == "multipleOf"@ || q == "length"@ || q == "pattern"@ implies #[trigger] field(
        e.doc(),
        q,
    ) == at(kind_entries(e.kind), q) by {
        lemma_doc_at(e, q);
        lemma_choices_at(e, q);
        lemma_base_at(e, q);
    }
    lemma_doc_at(e, "enum"@);
    lemma_choices_at(e, "enum"@);
    lemma_kind_at(e.kind, "length"@);
    lemma_kind_at(e.kind, "pattern"@);
    match e.kind {
        ElementKind::Integer(b) | ElementKind::Number(b) => {
            lemma_bounds_at(b, "minimum"@);
            lemma_bounds_at(b, "maximum"@);
            lemma_bounds_at(b, "exclusiveMinimum"@);
            lemma_bounds_at(b, "exclusiveMaximum"@);
            lemma_bounds_at(b, "multipleOf"@);
        },
        _ => {},
    }
}

/// Whether a document holds bounds of a number, each under its own key.
pub open spec fn bounds_written(doc: Json, b: NumericBounds) -> bool {
    &&& b.minimum is None ==> field(doc, "minimum"@) is None
    &&& b.minimum matches Some(n) ==> field(doc, "minimum"@) == Some(n@)
    &&& b.exclusive_minimum is None ==> field(doc, "exclusiveMinimum"@) is None
    &&& b.exclusive_minimum matches Some(n) ==> field(doc, "exclusiveMinimum"@) == Some(n@)
    &&& b.maximum is None ==> field(doc, "maximum"@) is None
    &&& b.maximum matches Some(n) ==> field(doc, "maximum"@) == Some(n@)
    &&& b.exclusive_maximum is None ==> field(doc, "exclusiveMaximum"@) is None
    &&& b.exclusive_maximum matches Some(n) ==> field(doc, "exclusiveMaximum"@) == Some(n@)
    &&& b.multiple_of is None ==> field(doc, "multipleOf"@) is None
    &&& b.multiple_of matches Some(n) ==> field(doc, "multipleOf"@) == Some(n@)
}

/// A list's document has the document of its items and the bounds on their number.
pub proof fn law_lists_say_their_items(e: ElementSchema)
    ensures
        (e.kind matches ElementKind::Array { items, min_items, max_items, unique_items } ==> {
            &&& field(e.doc(), "items"@) == Some(items.doc())
            &&& min_items is None ==> field(e.doc(), "minItems"@) is None
            &&& min_items matches Some(n) ==> field(e.doc(), "minItems"@) == Some(
                Json::Int(n as int),
            )
            &&& max_items is None ==> field(e.doc(), "maxItems"@) is None
            &&& max_items matches Some(n) ==> field(e.doc(), "maxItems"@) == Some(
                Json::Int(n as int),
            )
            &&& unique_items is None ==> field(e.doc(), "uniqueItems"@) is None
            &&& unique_items matches Some(b) ==> field(e.doc(), "uniqueItems"@) == Some(
                Json::Bool(b),
            )
        }),
{
    lemma_words();
    assert forall|q: Seq<char>|
        q == "items"@ || q == "minItems"@ || q == "maxItems"@ || q
            == "uniqueItems"@ implies #[trigger] field(e.doc(), q) == at(kind_entries(e.kind), q) by {
        lemma_doc_at(e, q);
        lemma_choices_at(e, q);
        lemma_base_at(e, q);
    }
    lemma_kind_at(e.kind, "items"@);
    lemma_kind_at(e.kind, "minItems"@);
    lemma_kind_at(e.kind, "maxItems"@);
    lemma_kind_at(e.kind, "uniqueItems"@);
}

/// Whether the properties of a document are the documents of elements, each under the
/// element's name, in their order.
pub open spec fn holds_every_element(doc: Json, list: Seq<ElementSchema>) -> bool {
    &&& field(doc, "properties"@) is Some
    &&& field(doc, "properties"@).unwrap() is Obj
    &&& field(doc, "properties"@).unwrap()->Obj_0.len() == list.len()
    &&& forall|i: int|
        0 <= i < list.len() ==> field(doc, "properties"@).unwrap()->Obj_0[i].0 == (
        #[trigger] list[i]).name@ && field(doc, "properties"@).unwrap()->Obj_0[i].1 == list[i].doc()
            && field(field(doc, "properties"@).unwrap(), list[i].name@) == Some(list[i].doc())
}

/// An object's document requires exactly the names of those of its elements that are
/// required, and has the document of each of its elements under the element's name, in
/// their order. As every element's document is one of these, so it is at every depth.
pub proof fn law_objects_require_their_required_elements(e: ElementSchema, name: Seq<char>)
    ensures
        (e.kind matches ElementKind::Object {
            properties,
            additional_elements,
            collapsible,
            default_collapsed,
        } ==> {
            let list = properties@;
            &&& field(e.doc(), "required"@) matches Some(Json::Arr(names)) && (names.contains(
                Json::Str(name),
            ) <==> exists|i: int|
                0 <= i < list.len() && (#[trigger] list[i]).name@ == name && requires_value(
                    list[i],
                ))
            &&& distinct_names(list) ==> holds_every_element(e.doc(), list)
            &&& field(e.doc(), "additionalElements"@) == Some(additional_elements@)
            &&& field(e.doc(), "x-collapsible"@) == Some(Json::Bool(collapsible))
            &&& field(e.doc(), "x-defaultCollapsed"@) == Some(Json::Bool(default_collapsed))
        }),
{
    lemma_words();
    assert forall|q: Seq<char>|
        q == "properties"@ || q == "additionalElements"@ || q == "required"@ || q
            == "x-collapsible"@ || q == "x-defaultCollapsed"@ implies #[trigger] field(e.doc(), q)
        == at(kind_entries(e.kind), q) by {
        lemma_doc_at(e, q);
        lemma_choices_at(e, q);
        lemma_base_at(e, q);
    }
    lemma_kind_at(e.kind, "properties"@);
    lemma_kind_at(e.kind, "additionalElements"@);
    lemma_kind_at(e.kind, "required"@);
    lemma_kind_at(e.kind, "x-collapsible"@);
    lemma_kind_at(e.kind, "x-defaultCollapsed"@);
    if let ElementKind::Object { properties, .. } = e.kind {
        lemma_required(properties@, name);
        if distinct_names(properties@) {
            lemma_properties(properties@);
        }
    }
}

proof fn lemma_required(list: Seq<ElementSchema>, name: Seq<char>)
    ensures
        required_names(list).contains(Json::Str(name)) <==> exists|i: int|
            0 <= i < list.len() && (#[trigger] list[i]).name@ == name && requires_value(list[i]),
{
    law_required_names(list, name);
    assert forall|i: int| 0 <= i < list.len() implies (#[trigger] list[i]).required_here()
        == requires_value(list[i]) by {}
}

proof fn lemma_properties(list: Seq<ElementSchema>)
    requires
        distinct_names(list),
    ensures
        property_entries(list).len() == list.len(),
        forall|i: int|
            0 <= i < list.len() ==> property_entries(list)[i].0 == (#[trigger] list[i]).name@
                && property_entries(list)[i].1 == list[i].doc() && at(
                property_entries(list),
                list[i].name@,
            ) == Some(list[i].doc()),
{
    let p = property_entries(list);
    law_properties_hold_every_element(list);
    assert forall|i: int| 0 <= i < list.len() implies p[i].0 == (#[trigger] list[i]).name@
        && p[i].1 == list[i].doc() && at(p, list[i].name@) == Some(list[i].doc()) by {
        assert(p[i] == (list[i].name@, list[i].doc()));
        assert forall|j: int| 0 <= j < i implies (#[trigger] p[j]).0 != list[i].name@ by {
            assert(p[j] == (list[j].name@, list[j].doc()));
            assert(list[j].name@ != list[i].name@);
        }
        lemma_first_is_position(p, list[i].name@, i);
    }
}

/// A schema's document is titled as the schema, or else `$default`, describes an object,
/// has the document of every element under the element's name, in their order, and
/// requires exactly the names of its required elements.
pub proof fn law_schemas_hold_their_elements(m: SchemaModel, name: Seq<char>)
    ensures
        m.title matches Some(t) ==> field(m.doc(), "title"@) == Some(Json::Str(t@)),
        m.title is None ==> field(m.doc(), "title"@) == Some(Json::Str("$default"@)),
        field(m.doc(), "type"@) == Some(Json::Str("object"@)),
        field(m.doc(), "additionalElements"@) == Some(Json::Bool(true)),
        m.advanced is None ==> field(m.doc(), "x-advanced"@) is None,
        m.advanced matches Some(b) ==> field(m.doc(), "x-advanced"@) == Some(Json::Bool(b)),
        field(m.doc(), "required"@) matches Some(Json::Arr(names)) && (names.contains(
            Json::Str(name),
        ) <==> exists|i: int|
            0 <= i < m.elements@.len() && (#[trigger] m.elements@[i]).name@ == name
                && requires_value(m.elements@[i])),
        distinct_names(m.elements@) ==> holds_every_element(m.doc(), m.elements@),
{
    lemma_words();
    reveal_strlit("$schema");
    reveal_strlit("$id");
    assert("$schema"@[0] == '$' && "$id"@[0] == '$');
    let e = m.doc()->Obj_0;
    let rest = optional_entry("x-advanced"@, bool_doc(m.advanced));
    let head = e.take(7);
    assert(e =~= head + rest);
    assert(head[0].0 == "$schema"@ && head[1].0 == "$id"@ && head[2].0 == "title"@ && head[3].0
        == "type"@ && head[4].0 == "properties"@ && head[5].0 == "additionalElements"@ && head[6].0
        == "required"@);
    assert(head[3].1 == Json::Str("object"@) && head[5].1 == Json::Bool(true));
    assert(head[4].1 == Json::Obj(property_entries(m.elements@)));
    assert(head[6].1 == Json::Arr(required_names(m.elements@)));
    assert(head[2].1 == Json::Str(
        match m.title {
            Some(t) => t@,
            None => "$default"@,
        },
    ));
    assert forall|q: Seq<char>|
        #[trigger] field(m.doc(), q) == (if at(head, q) is Some {
            at(head, q)
        } else if q == "x-advanced"@ {
            bool_doc(m.advanced)
        } else {
            None
        }) by {
        lemma_at_add(head, rest, q);
        lemma_at_optional("x-advanced"@, bool_doc(m.advanced), q);
    }
    lemma_first_is_position(head, "title"@, 2);
    lemma_first_is_position(head, "type"@, 3);
    lemma_first_is_position(head, "properties"@, 4);
    lemma_first_is_position(head, "additionalElements"@, 5);
    lemma_first_is_position(head, "required"@, 6);
    lemma_position(head, "x-advanced"@);
    assert(field(m.doc(), "title"@) == Some(head[2].1));
    assert(field(m.doc(), "type"@) == Some(head[3].1));
    assert(field(m.doc(), "properties"@) == Some(head[4].1));
    assert(field(m.doc(), "additionalElements"@) == Some(head[5].1));
    assert(field(m.doc(), "required"@) == Some(head[6].1));
    assert(field(m.doc(), "x-advanced"@) == bool_doc(m.advanced));
    lemma_required(m.elements@, name);
    if distinct_names(m.elements@) {
        lemma_properties(m.elements@);
    }
}

/// A choice is one of texts if all its values are, one of numbers if all are doubles, and
/// otherwise has no type.
pub proof fn law_choices_have_the_type_of_their_values(choices: Seq<Json>, i: int, j: int)
    requires
        0 <= i < choices.len(),
        0 <= j < choices.len(),
    ensures
        choices[i] is Str && !(choices[j] is Str) ==> choice_type(choices) == ChoiceType::Mixed,
        choices[i] is Float && !(choices[j] is Float) ==> choice_type(choices)
            == ChoiceType::Mixed,
        !(choices[i] is Str) && !(choices[i] is Float) ==> choice_type(choices)
            == ChoiceType::Mixed,
        (forall|k: int| 0 <= k < choices.len() ==> (#[trigger] choices[k]) is Str) ==> choice_type(
            choices,
        ) == ChoiceType::Text,
        (forall|k: int| 0 <= k < choices.len() ==> (#[trigger] choices[k]) is Float)
            ==> choice_type(choices) == ChoiceType::Double,
        choice_type(Seq::empty()) == ChoiceType::Text,
{
    let a = choices[i];
    let b = choices[j];
}

/// A new element has its title and name and is otherwise plain: shown, required, and without
/// anything else.
pub proof fn law_new_elements_are_plain(e: ElementSchema, title: Seq<char>, name: Seq<char>)
    requires
        e.is_bare(title, name),
    ensures
        e.title@ == title,
        e.name@ == name,
        !e.hidden,
        e.required_here(),
        e.format is None,
        e.description is None,
        e.default is None,
        e.position is None,
        e.deprecated is None,
        e.advanced is None,
{
}

} // verus!
