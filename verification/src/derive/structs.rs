//! The code of declared configurations: a schema with its elements, and how a value is
//! loaded element by element.
use vstd::prelude::*;

use crate::derive::fields::{flag_code, FieldAttrs, FieldDecl};
use crate::text::{concat, debug_text, decimal, quoted, views, write_u64};

verus! {

/// A declared structure.
#[derive(Debug)]
pub struct StructDecl {
    pub ident: String,
    pub attrs: FieldAttrs,
    pub fields: Vec<FieldDecl>,
}

/// What is wrong with a declaration, and which of its members it is.
#[derive(Debug)]
pub struct DeclFault {
    pub member: usize,
    pub message: String,
}

/// The code of the fields, one after the other, or the first that is not accepted and
/// what is wrong with it. Positions count from `first`.
pub open spec fn blocks(fields: Seq<FieldDecl>, first: nat) -> Result<Seq<char>, (int, Seq<char>)>
    decreases fields.len(),
{
    if fields.len() == 0 {
        Ok(Seq::empty())
    } else {
        match blocks(fields.drop_last(), first) {
            Err(f) => Err(f),
            Ok(before) => match fields.last().fault() {
                Some(m) => Err((fields.len() - 1, m)),
                None => Ok(before + fields.last().code((first + fields.len() - 1) as u32)),
            },
        }
    }
}

proof fn lemma_blocks_fault(fields: Seq<FieldDecl>, first: nat, n: int)
    requires
        0 <= n <= fields.len(),
        blocks(fields.take(n), first) is Err,
    ensures
        blocks(fields, first) == blocks(fields.take(n), first),
    decreases fields.len(),
{
    if n == fields.len() {
        assert(fields.take(n) =~= fields);
    } else {
        assert(fields.drop_last().take(n) =~= fields.take(n));
        lemma_blocks_fault(fields.drop_last(), first, n);
    }
}

/// The code that loads the fields from their elements.
pub open spec fn loads(fields: Seq<FieldDecl>) -> Seq<char>
    decreases fields.len(),
{
    if fields.len() == 0 {
        Seq::empty()
    } else {
        loads(fields.drop_last()) + (fields.last().name@
            + ": ::doover::config::load_element(__v, &__els["@ + decimal(
            (fields.len() - 1) as nat,
        ) + "usize])?, "@)
    }
}

fn emit_blocks(fields: &Vec<FieldDecl>, first: u32) -> (r: Result<String, DeclFault>)
    requires
        first + fields@.len() <= u32::MAX,
    ensures
        match (blocks(fields@, first as nat), r) {
            (Ok(c), Ok(s)) => s@ == c,
            (Err(f), Err(e)) => e.member == f.0 && e.message@ == f.1,
            _ => false,
        },
{
    let mut s = String::new();
    let mut i: usize = 0;
    assert(fields@.take(0) =~= Seq::empty());
    assert(s@ =~= Seq::empty());
    while i < fields.len()
        invariant
            i <= fields@.len(),
            first + fields@.len() <= u32::MAX,
            blocks(fields@.take(i as int), first as nat) == Ok::<Seq<char>, (int, Seq<char>)>(s@),
        decreases fields@.len() - i,
    {
        proof {
            assert(fields@.take(i as int + 1).drop_last() =~= fields@.take(i as int));
            assert(fields@.take(i as int + 1).last() == fields@[i as int]);
        }
        match fields[i].field_element_block(first + i as u32) {
            Ok(block) => {
                s.append(block.as_str());
            },
            Err(message) => {
                proof {
                    lemma_blocks_fault(fields@, first as nat, i as int + 1);
                }
                return Err(DeclFault { member: i, message });
            },
        }
        i += 1;
    }
    assert(fields@.take(fields@.len() as int) =~= fields@);
    Ok(s)
}

fn emit_loads(fields: &Vec<FieldDecl>) -> (s: String)
    ensures
        s@ == loads(fields@),
{
    let mut s = String::new();
    let mut i: usize = 0;
    assert(fields@.take(0) =~= Seq::empty());
    assert(s@ =~= Seq::empty());
    while i < fields.len()
        invariant
            i <= fields@.len(),
            s@ == loads(fields@.take(i as int)),
        decreases fields@.len() - i,
    {
        proof {
            assert(fields@.take(i as int + 1).drop_last() =~= fields@.take(i as int));
            assert(fields@.take(i as int + 1).last() == fields@[i as int]);
        }
        let mut one = concat(
            fields[i].name.as_str(),
            ": ::doover::config::load_element(__v, &__els[",
        );
        one.append(write_u64(i as u64).as_str());
        one.append("usize])?, ");
        s.append(one.as_str());
        i += 1;
    }
    assert(fields@.take(fields@.len() as int) =~= fields@);
    s
}

/// The code that gives a schema its title.
pub open spec fn schema_title(attrs: FieldAttrs) -> Seq<char> {
    match attrs.name {
        Some(n) => "__m.title = ::core::option::Option::Some("@ + debug_text(n@)
            + ".to_string()); "@,
        None => Seq::empty(),
    }
}

/// The code of a configuration whose fields have the given code.
pub open spec fn config_code(d: StructDecl, elements: Seq<char>) -> Seq<char> {
    "const _: () = { fn __config_elements() -> ::std::vec::Vec<::doover::config::ElementSchema> { let mut __els = ::std::vec::Vec::new(); "@
        + elements
        + " __els } #[automatically_derived] impl ::doover::config::ConfigSchema for "@ + d.ident@
        + " { fn schema() -> ::doover::config::SchemaModel { let mut __m = ::doover::config::SchemaModel::new(); "@
        + schema_title(d.attrs) + flag_code(
        d.attrs.advanced,
        "__m.advanced = ::core::option::Option::Some(true); "@,
    )
        + "for __el in __config_elements() { __m.push(__el); } __m } fn from_value(__v: &::doover::__private::serde_json::Value) -> ::doover::error::Result<Self> { let __els = __config_elements(); ::core::result::Result::Ok(Self { "@
        + loads(d.fields@) + "}) } } };"@
}

/// The code of an object whose fields have the given code.
pub open spec fn object_code(d: StructDecl, elements: Seq<char>) -> Seq<char> {
    "const _: () = { fn __object_elements() -> ::std::vec::Vec<::doover::config::ElementSchema> { let mut __els = ::std::vec::Vec::new(); "@
        + elements
        + " __els } #[automatically_derived] impl ::doover::config::ConfigElementBuild for "@
        + d.ident@
        + " { fn element(title: &str, name: &str) -> ::doover::config::ElementSchema { ::doover::config::ElementSchema::object(title, name, __object_elements()) } } #[automatically_derived] impl ::doover::config::FromConfigValue for "@
        + d.ident@
        + " { fn from_config_value(__v: &::doover::__private::serde_json::Value) -> ::doover::error::Result<Self> { let __els = __object_elements(); ::core::result::Result::Ok(Self { "@
        + loads(d.fields@) + "}) } } };"@
}

/// The code of a configuration, or what is wrong with it. Its elements count from zero.
pub fn expand_config(d: &StructDecl) -> (r: Result<String, DeclFault>)
    requires
        d.fields@.len() < u32::MAX,
    ensures
        match (blocks(d.fields@, 0), r) {
            (Ok(c), Ok(s)) => s@ == config_code(*d, c),
            (Err(f), Err(e)) => e.member == f.0 && e.message@ == f.1,
            _ => false,
        },
{
    let elements = match emit_blocks(&d.fields, 0) {
        Ok(s) => s,
        Err(e) => {
            return Err(e);
        },
    };
    let title = match &d.attrs.name {
        Some(n) => {
            let mut t = concat(
                "__m.title = ::core::option::Option::Some(",
                quoted(n.as_str()).as_str(),
            );
            t.append(".to_string()); ");
            t
        },
        None => {
            let t = String::new();
            assert(t@ =~= Seq::empty());
            t
        },
    };
    let advanced = if d.attrs.advanced {
        "__m.advanced = ::core::option::Option::Some(true); ".to_owned()
    } else {
        let t = String::new();
        assert(t@ =~= Seq::empty());
        t
    };
    let mut s = concat(
        "const _: () = { fn __config_elements() -> ::std::vec::Vec<::doover::config::ElementSchema> { let mut __els = ::std::vec::Vec::new(); ",
        elements.as_str(),
    );
    s.append(" __els } #[automatically_derived] impl ::doover::config::ConfigSchema for ");
    s.append(d.ident.as_str());
    s.append(
        " { fn schema() -> ::doover::config::SchemaModel { let mut __m = ::doover::config::SchemaModel::new(); ",
    );
    s.append(title.as_str());
    s.append(advanced.as_str());
    s.append(
        "for __el in __config_elements() { __m.push(__el); } __m } fn from_value(__v: &::doover::__private::serde_json::Value) -> ::doover::error::Result<Self> { let __els = __config_elements(); ::core::result::Result::Ok(Self { ",
    );
    s.append(emit_loads(&d.fields).as_str());
    s.append("}) } } };");
    Ok(s)
}

/// The code of an object, or what is wrong with it. Its elements count from one.
pub fn expand_config_object(d: &StructDecl) -> (r: Result<String, DeclFault>)
    requires
        d.fields@.len() < u32::MAX,
    ensures
        match (blocks(d.fields@, 1), r) {
            (Ok(c), Ok(s)) => s@ == object_code(*d, c),
            (Err(f), Err(e)) => e.member == f.0 && e.message@ == f.1,
            _ => false,
        },
{
    let elements = match emit_blocks(&d.fields, 1) {
        Ok(s) => s,
        Err(e) => {
            return Err(e);
        },
    };
    let mut s = concat(
        "const _: () = { fn __object_elements() -> ::std::vec::Vec<::doover::config::ElementSchema> { let mut __els = ::std::vec::Vec::new(); ",
        elements.as_str(),
    );
    s.append(" __els } #[automatically_derived] impl ::doover::config::ConfigElementBuild for ");
    s.append(d.ident.as_str());
    s.append(
        " { fn element(title: &str, name: &str) -> ::doover::config::ElementSchema { ::doover::config::ElementSchema::object(title, name, __object_elements()) } } #[automatically_derived] impl ::doover::config::FromConfigValue for ",
    );
    s.append(d.ident.as_str());
    s.append(
        " { fn from_config_value(__v: &::doover::__private::serde_json::Value) -> ::doover::error::Result<Self> { let __els = __object_elements(); ::core::result::Result::Ok(Self { ",
    );
    s.append(emit_loads(&d.fields).as_str());
    s.append("}) } } };");
    Ok(s)
}

/// The message that a derive needs a structure with named fields.
pub fn named_fields_message(derive: &str) -> (m: String)
    ensures
        m@ == "#[derive("@ + derive@ + ")] requires a struct with named fields"@,
{
    let mut m = concat("#[derive(", derive);
    m.append(")] requires a struct with named fields");
    m
}

/// The code by which the elements of a user interface are found, in the order of the
/// fields.
pub open spec fn each_field(fields: Seq<Seq<char>>, start: Seq<char>, end: Seq<char>) -> Seq<char>
    decreases fields.len(),
{
    if fields.len() == 0 {
        Seq::empty()
    } else {
        each_field(fields.drop_last(), start, end) + (start + fields.last() + end)
    }
}

/// The code of a user interface.
pub open spec fn ui_code(ident: Seq<char>, fields: Seq<Seq<char>>) -> Seq<char> {
    "const _: () = { #[automatically_derived] impl ::doover::ui::UiTree for "@ + ident
        + " { fn children(&self) -> ::std::vec::Vec<&dyn ::doover::ui::UiElement> { ::std::vec!["@
        + each_field(fields, "&self."@, " as &dyn ::doover::ui::UiElement, "@)
        + "] } fn children_mut(&mut self) -> ::std::vec::Vec<&mut dyn ::doover::ui::UiElement> { ::std::vec!["@
        + each_field(fields, "&mut self."@, " as &mut dyn ::doover::ui::UiElement, "@)
        + "] } } };"@
}

fn emit_each(fields: &Vec<String>, start: &str, end: &str) -> (s: String)
    ensures
        s@ == each_field(views(fields@), start@, end@),
{
    let ghost all = views(fields@);
    let mut s = String::new();
    let mut i: usize = 0;
    assert(all.take(0) =~= Seq::empty());
    assert(s@ =~= Seq::empty());
    while i < fields.len()
        invariant
            i <= fields@.len(),
            all == views(fields@),
            s@ == each_field(all.take(i as int), start@, end@),
        decreases fields@.len() - i,
    {
        proof {
            assert(all.take(i as int + 1).drop_last() =~= all.take(i as int));
            assert(all.take(i as int + 1).last() == fields@[i as int]@);
        }
        let mut one = concat(start, fields[i].as_str());
        one.append(end);
        s.append(one.as_str());
        i += 1;
    }
    assert(all.take(all.len() as int) =~= all);
    s
}

/// The code of a user interface.
pub fn expand_ui(ident: &str, fields: &Vec<String>) -> (s: String)
    ensures
        s@ == ui_code(ident@, views(fields@)),
{
    let mut s = concat(
        "const _: () = { #[automatically_derived] impl ::doover::ui::UiTree for ",
        ident,
    );
    s.append(
        " { fn children(&self) -> ::std::vec::Vec<&dyn ::doover::ui::UiElement> { ::std::vec![",
    );
    s.append(emit_each(fields, "&self.", " as &dyn ::doover::ui::UiElement, ").as_str());
    s.append(
        "] } fn children_mut(&mut self) -> ::std::vec::Vec<&mut dyn ::doover::ui::UiElement> { ::std::vec![",
    );
    s.append(emit_each(fields, "&mut self.", " as &mut dyn ::doover::ui::UiElement, ").as_str());
    s.append("] } } };");
    s
}

} // verus!
