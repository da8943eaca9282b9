//! The code of declared choices: an enumeration whose variants stand for texts.
use vstd::prelude::*;

use crate::derive::names::{camel_to_title, spaced};
use crate::derive::structs::DeclFault;
use crate::json::Json;
use crate::text::{concat, debug_text, join, joined, quoted, views};

verus! {

/// A variant of a declared enumeration.
#[derive(Debug)]
pub struct VariantDecl {
    pub ident: String,
    /// Whether it has no fields.
    pub is_unit: bool,
    /// The text that it stands for, if that is given.
    pub rename: Option<String>,
}

/// A declared enumeration.
#[derive(Debug)]
pub struct EnumDecl {
    pub ident: String,
    pub variants: Vec<VariantDecl>,
}

/// The text that a variant stands for: the given one, or else its name with spaces.
pub open spec fn choice_text(v: VariantDecl) -> Seq<char> {
    match v.rename {
        Some(r) => r@,
        None => spaced(v.ident@),
    }
}

/// The texts that variants stand for.
pub open spec fn choice_texts(variants: Seq<VariantDecl>) -> Seq<Seq<char>> {
    Seq::new(variants.len(), |i: int| choice_text(variants[i]))
}

/// The first variant that has fields.
pub open spec fn first_with_fields(variants: Seq<VariantDecl>) -> Option<int>
    decreases variants.len(),
{
    if variants.len() == 0 {
        None
    } else {
        match first_with_fields(variants.drop_last()) {
            Some(i) => Some(i),
            None => if variants.last().is_unit {
                None
            } else {
                Some(variants.len() - 1)
            },
        }
    }
}

proof fn lemma_first_with_fields(variants: Seq<VariantDecl>, n: int)
    requires
        0 <= n <= variants.len(),
        first_with_fields(variants.take(n)) is Some,
    ensures
        first_with_fields(variants) == first_with_fields(variants.take(n)),
    decreases variants.len(),
{
    if n == variants.len() {
        assert(variants.take(n) =~= variants);
    } else {
        assert(variants.drop_last().take(n) =~= variants.take(n));
        lemma_first_with_fields(variants.drop_last(), n);
    }
}

/// The code of the choices of an element.
pub open spec fn value_codes(variants: Seq<VariantDecl>) -> Seq<char>
    decreases variants.len(),
{
    if variants.len() == 0 {
        Seq::empty()
    } else {
        value_codes(variants.drop_last()) + (
        "::doover::__private::serde_json::Value::String("@ + debug_text(
            choice_text(variants.last()),
        ) + ".to_string()), "@)
    }
}

/// An arm of the code of an enumeration: the name of a variant, and the text that the
/// variant stands for.
pub struct Arm {
    pub variant: Seq<char>,
    pub text: Seq<char>,
}

/// The arm of a variant.
pub open spec fn arm_of(v: VariantDecl) -> Arm {
    Arm { variant: v.ident@, text: choice_text(v) }
}

/// The arms of variants, in their order.
pub open spec fn arms_of(variants: Seq<VariantDecl>) -> Seq<Arm> {
    Seq::new(variants.len(), |i: int| arm_of(variants[i]))
}

/// The code that writes a variant as its text.
pub open spec fn write_arm(a: Arm) -> Seq<char> {
    "Self::"@ + a.variant + " => f.write_str("@ + debug_text(a.text) + "), "@
}

/// The code that reads a text as its variant.
pub open spec fn read_arm(a: Arm) -> Seq<char> {
    debug_text(a.text) + " => ::core::result::Result::Ok(Self::"@ + a.variant + "), "@
}

/// The code that writes each variant as its text.
pub open spec fn write_arms(variants: Seq<VariantDecl>) -> Seq<char>
    decreases variants.len(),
{
    if variants.len() == 0 {
        Seq::empty()
    } else {
        write_arms(variants.drop_last()) + write_arm(arm_of(variants.last()))
    }
}

/// The code that reads each text as its variant.
pub open spec fn read_arms(variants: Seq<VariantDecl>) -> Seq<char>
    decreases variants.len(),
{
    if variants.len() == 0 {
        Seq::empty()
    } else {
        read_arms(variants.drop_last()) + read_arm(arm_of(variants.last()))
    }
}

/// The code of an enumeration.
pub open spec fn enum_code(d: EnumDecl) -> Seq<char> {
    let expected = joined(choice_texts(d.variants@), "', '"@);
    "#[automatically_derived] impl ::doover::config::ConfigElementBuild for "@ + d.ident@
        + " { fn element(title: &str, name: &str) -> ::doover::config::ElementSchema { ::doover::config::ElementSchema::enumeration(title, name, ::std::vec!["@
        + value_codes(d.variants@)
        + "]) } } #[automatically_derived] impl ::core::fmt::Display for "@ + d.ident@
        + " { fn fmt(&self, f: &mut ::core::fmt::Formatter<'_>) -> ::core::fmt::Result { match self { "@
        + write_arms(d.variants@)
        + "} } } #[automatically_derived] impl ::core::str::FromStr for "@ + d.ident@
        + " { type Err = ::doover::error::DooverError; fn from_str(s: &str) -> ::core::result::Result<Self, Self::Err> { match s { "@
        + read_arms(d.variants@)
        + "other => ::core::result::Result::Err(::doover::error::DooverError::Other(::std::format!(\"invalid value '{other}' for enum {}; expected one of: '{}'\", "@
        + debug_text(d.ident@) + ", "@ + debug_text(expected)
        + "))), } } } #[automatically_derived] impl ::doover::config::FromConfigValue for "@
        + d.ident@
        + " { fn from_config_value(v: &::doover::__private::serde_json::Value) -> ::doover::error::Result<Self> { match v.as_str() { ::core::option::Option::Some(s) => <Self as ::core::str::FromStr>::from_str(s), ::core::option::Option::None => { ::core::result::Result::Err(::doover::error::DooverError::Other(::std::format!(\"expected string for enum {}, got {v}\", "@
        + debug_text(d.ident@)
        + "))) } } } } #[automatically_derived] impl ::doover::config::ToConfigValue for "@
        + d.ident@
        + " { fn to_config_value(&self) -> ::doover::__private::serde_json::Value { ::doover::__private::serde_json::Value::String(::std::string::ToString::to_string(self)) } }"@
}

/// The message that a derive needs an enumeration.
pub const NEEDS_ENUM: &'static str = "#[derive(ConfigEnum)] requires a fieldless enum";

/// The message that a variant has fields.
pub const NEEDS_UNIT: &'static str = "#[derive(ConfigEnum)] variants must be fieldless";

fn choice(v: &VariantDecl) -> (r: String)
    ensures
        r@ == choice_text(*v),
{
    match &v.rename {
        Some(r) => r.clone(),
        None => camel_to_title(v.ident.as_str()),
    }
}

/// The texts that the variants stand for.
pub fn choices(variants: &Vec<VariantDecl>) -> (list: Vec<String>)
    ensures
        views(list@) == choice_texts(variants@),
{
    let mut list: Vec<String> = Vec::new();
    let mut i: usize = 0;
    while i < variants.len()
        invariant
            i <= variants@.len(),
            list@.len() == i,
            forall|j: int| 0 <= j < i ==> (#[trigger] list@[j])@ == choice_text(variants@[j]),
        decreases variants@.len() - i,
    {
        list.push(choice(&variants[i]));
        i += 1;
    }
    assert(views(list@) =~= choice_texts(variants@));
    list
}

/// The code of an enumeration, or what is wrong with it.
pub fn expand_config_enum(d: &EnumDecl) -> (r: Result<String, DeclFault>)
    ensures
        match (first_with_fields(d.variants@), r) {
            (None, Ok(s)) => s@ == enum_code(*d),
            (Some(i), Err(e)) => e.member == i && e.message@ == NEEDS_UNIT@,
            _ => false,
        },
{
    let n = d.variants.len();
    let mut values = String::new();
    let mut writes = String::new();
    let mut reads = String::new();
    let mut i: usize = 0;
    let ghost all = d.variants@;
    assert(all.take(0) =~= Seq::empty());
    assert(values@ =~= Seq::empty());
    assert(writes@ =~= Seq::empty());
    assert(reads@ =~= Seq::empty());
    while i < n
        invariant
            i <= n,
            n == all.len(),
            all == d.variants@,
            first_with_fields(all.take(i as int)) is None,
            values@ == value_codes(all.take(i as int)),
            writes@ == write_arms(all.take(i as int)),
            reads@ == read_arms(all.take(i as int)),
        decreases n - i,
    {
        proof {
            assert(all.take(i as int + 1).drop_last() =~= all.take(i as int));
            assert(all.take(i as int + 1).last() == all[i as int]);
        }
        let v = &d.variants[i];
        if !v.is_unit {
            proof {
                lemma_first_with_fields(all, i as int + 1);
            }
            return Err(DeclFault { member: i, message: NEEDS_UNIT.to_owned() });
        }
        let text = choice(v);
        let q = quoted(text.as_str());
        let mut value = concat("::doover::__private::serde_json::Value::String(", q.as_str());
        value.append(".to_string()), ");
        values.append(value.as_str());
        let mut write = concat("Self::", v.ident.as_str());
        write.append(" => f.write_str(");
        write.append(q.as_str());
        write.append("), ");
        writes.append(write.as_str());
        let mut read = concat(q.as_str(), " => ::core::result::Result::Ok(Self::");
        read.append(v.ident.as_str());
        read.append("), ");
        reads.append(read.as_str());
        i += 1;
    }
    assert(all.take(all.len() as int) =~= all);
    let list = choices(&d.variants);
    let expected = join(&list, "', '");
    let name = quoted(d.ident.as_str());
    let mut s = concat(
        "#[automatically_derived] impl ::doover::config::ConfigElementBuild for ",
        d.ident.as_str(),
    );
    s.append(
        " { fn element(title: &str, name: &str) -> ::doover::config::ElementSchema { ::doover::config::ElementSchema::enumeration(title, name, ::std::vec![",
    );
    s.append(values.as_str());
    s.append("]) } } #[automatically_derived] impl ::core::fmt::Display for ");
    s.append(d.ident.as_str());
    s.append(
        " { fn fmt(&self, f: &mut ::core::fmt::Formatter<'_>) -> ::core::fmt::Result { match self { ",
    );
    s.append(writes.as_str());
    s.append("} } } #[automatically_derived] impl ::core::str::FromStr for ");
    s.append(d.ident.as_str());
    s.append(
        " { type Err = ::doover::error::DooverError; fn from_str(s: &str) -> ::core::result::Result<Self, Self::Err> { match s { ",
    );
    s.append(reads.as_str());
    s.append(
        "other => ::core::result::Result::Err(::doover::error::DooverError::Other(::std::format!(\"invalid value '{other}' for enum {}; expected one of: '{}'\", ",
    );
    s.append(name.as_str());
    s.append(", ");
    s.append(quoted(expected.as_str()).as_str());
    s.append(
        "))), } } } #[automatically_derived] impl ::doover::config::FromConfigValue for ",
    );
    s.append(d.ident.as_str());
    s.append(
        " { fn from_config_value(v: &::doover::__private::serde_json::Value) -> ::doover::error::Result<Self> { match v.as_str() { ::core::option::Option::Some(s) => <Self as ::core::str::FromStr>::from_str(s), ::core::option::Option::None => { ::core::result::Result::Err(::doover::error::DooverError::Other(::std::format!(\"expected string for enum {}, got {v}\", ",
    );
    s.append(name.as_str());
    s.append("))) } } } } #[automatically_derived] impl ::doover::config::ToConfigValue for ");
    s.append(d.ident.as_str());
    s.append(
        " { fn to_config_value(&self) -> ::doover::__private::serde_json::Value { ::doover::__private::serde_json::Value::String(::std::string::ToString::to_string(self)) } }",
    );
    Ok(s)
}

// ---- what the arms do ----------------------------------------------------------------

/// What the arms of `write_arms` write for a variant: the text of the first arm that
/// names it.
pub open spec fn arms_write(arms: Seq<Arm>, variant: Seq<char>) -> Option<Seq<char>>
    decreases arms.len(),
{
    if arms.len() == 0 {
        None
    } else if arms[0].variant == variant {
        Some(arms[0].text)
    } else {
        arms_write(arms.drop_first(), variant)
    }
}

/// What the arms of `read_arms` read a text as: the variant of the first arm that has
/// it. A text that no arm has is left to the arm that fails.
pub open spec fn arms_read(arms: Seq<Arm>, text: Seq<char>) -> Option<Seq<char>>
    decreases arms.len(),
{
    if arms.len() == 0 {
        None
    } else if arms[0].text == text {
        Some(arms[0].variant)
    } else {
        arms_read(arms.drop_first(), text)
    }
}

/// What the code reads a document as: a string goes through the arms, and anything else
/// fails.
pub open spec fn arms_read_document(arms: Seq<Arm>, j: Json) -> Option<Seq<char>> {
    match j {
        Json::Str(s) => arms_read(arms, s),
        _ => None,
    }
}

/// The code that arms spell, one after the other.
pub open spec fn spelled(codes: Seq<Seq<char>>) -> Seq<char>
    decreases codes.len(),
{
    if codes.len() == 0 {
        Seq::empty()
    } else {
        spelled(codes.drop_last()) + codes.last()
    }
}

proof fn lemma_arms(arms: Seq<Arm>, i: int)
    requires
        0 <= i < arms.len(),
    ensures
        (forall|j: int| 0 <= j < i ==> (#[trigger] arms[j]).variant != arms[i].variant)
            ==> arms_write(arms, arms[i].variant) == Some(arms[i].text),
        (forall|j: int| 0 <= j < i ==> (#[trigger] arms[j]).text != arms[i].text) ==> arms_read(
            arms,
            arms[i].text,
        ) == Some(arms[i].variant),
    decreases i,
{
    if i > 0 {
        let rest = arms.drop_first();
        lemma_arms(rest, i - 1);
        assert(rest[i - 1] == arms[i]);
        assert forall|j: int| 0 <= j < i - 1 implies (#[trigger] rest[j]) == arms[j + 1] by {}
    }
}

proof fn lemma_no_arm(arms: Seq<Arm>, text: Seq<char>)
    requires
        forall|j: int| 0 <= j < arms.len() ==> (#[trigger] arms[j]).text != text,
    ensures
        arms_read(arms, text) is None,
    decreases arms.len(),
{
    if arms.len() > 0 {
        let rest = arms.drop_first();
        assert forall|j: int| 0 <= j < rest.len() implies (#[trigger] rest[j]).text != text by {
            assert(rest[j] == arms[j + 1]);
        }
        lemma_no_arm(rest, text);
    }
}

/// The code that writes and the code that reads spell the same arms, in the order of
/// the variants.
pub proof fn law_both_codes_have_the_same_arms(variants: Seq<VariantDecl>)
    ensures
        write_arms(variants) == spelled(
            Seq::new(variants.len(), |i: int| write_arm(arms_of(variants)[i])),
        ),
        read_arms(variants) == spelled(
            Seq::new(variants.len(), |i: int| read_arm(arms_of(variants)[i])),
        ),
    decreases variants.len(),
{
    let writes = Seq::new(variants.len(), |i: int| write_arm(arms_of(variants)[i]));
    let reads = Seq::new(variants.len(), |i: int| read_arm(arms_of(variants)[i]));
    if variants.len() > 0 {
        let some = variants.drop_last();
        law_both_codes_have_the_same_arms(some);
        assert(writes.drop_last() =~= Seq::new(some.len(), |i: int| write_arm(arms_of(some)[i])));
        assert(reads.drop_last() =~= Seq::new(some.len(), |i: int| read_arm(arms_of(some)[i])));
    }
}

/// Where no two variants stand for the same text, what is written for a variant reads
/// back as that variant, as a text and as a document. No two variants have the same
/// name.
pub proof fn law_choices_read_back(variants: Seq<VariantDecl>, i: int)
    requires
        0 <= i < variants.len(),
        forall|j: int, k: int|
            0 <= j < k < variants.len() ==> (#[trigger] variants[j]).ident@ != (
            #[trigger] variants[k]).ident@,
        forall|j: int, k: int|
            0 <= j < k < variants.len() ==> choice_text(#[trigger] variants[j]) != choice_text(
                #[trigger] variants[k],
            ),
    ensures
        ({
            let arms = arms_of(variants);
            let name = variants[i].ident@;
            let text = choice_text(variants[i]);
            &&& arms_write(arms, name) == Some(text)
            &&& arms_read(arms, text) == Some(name)
            &&& arms_read_document(arms, Json::Str(text)) == Some(name)
        }),
{
    let arms = arms_of(variants);
    assert forall|j: int| 0 <= j < i implies (#[trigger] arms[j]).variant != arms[i].variant
        && arms[j].text != arms[i].text by {
        assert(variants[j].ident@ != variants[i].ident@);
    }
    lemma_arms(arms, i);
}

/// A text that is none of the choices is no variant, and neither is a document that is
/// no string.
pub proof fn law_other_texts_are_refused(variants: Seq<VariantDecl>, text: Seq<char>, j: Json)
    ensures
        !choice_texts(variants).contains(text) ==> arms_read(arms_of(variants), text) is None,
        !(j is Str) ==> arms_read_document(arms_of(variants), j) is None,
{
    if !choice_texts(variants).contains(text) {
        let arms = arms_of(variants);
        assert forall|i: int| 0 <= i < arms.len() implies (#[trigger] arms[i]).text != text by {
            assert(choice_texts(variants)[i] == arms[i].text);
        }
        lemma_no_arm(arms, text);
    }
}

} // verus!
