//! The fields of a declared configuration: their options, and the code that builds and
//! loads their elements.
//!
//! Types and expressions are carried as the text of their tokens. The name of a field
//! is its key, unless another is given; a title has to give that name back.
use vstd::prelude::*;

use crate::config::elements::{sanitize_display_name, sanitized};
use crate::derive::names::{check_key, comment_text, doc_comment, key_mark, title_case, titled};
use crate::text::{
    concat, debug_text, decimal, decimal_int, opt_chars, quoted, same, write_i64, write_u64,
};

verus! {

// ---- options ---------------------------------------------------------------------------

/// A number in a declaration.
#[derive(Debug)]
pub enum BoundLit {
    Whole(i64),
    /// The digits of a number with a fraction.
    Fraction(String),
    /// Something that is no number.
    Other,
}

/// The value of an option.
#[derive(Debug)]
pub enum OptionValue {
    /// The option has no value.
    Flag,
    Text(String),
    /// The tokens of an expression.
    Expr(String),
    Literal(BoundLit),
    Count(u64),
}

/// What kind of value an option takes.
#[derive(Debug, Clone, Copy, PartialEq, Eq, Structural)]
pub enum OptionKind {
    Flag,
    Text,
    Expr,
    Literal,
    Count,
}

/// What kind of value an option of a field takes; nothing for an option that is not
/// known.
pub open spec fn kind_of(name: Seq<char>) -> Option<OptionKind> {
    if name == "title"@ || name == "name"@ || name == "item_title"@ || name == "format"@ || name
        == "pattern"@ {
        Some(OptionKind::Text)
    } else if name == "default"@ {
        Some(OptionKind::Expr)
    } else if name == "hidden"@ || name == "advanced"@ || name == "deprecated"@ {
        Some(OptionKind::Flag)
    } else if name == "min"@ || name == "max"@ || name == "multiple_of"@ {
        Some(OptionKind::Literal)
    } else if name == "min_items"@ || name == "max_items"@ {
        Some(OptionKind::Count)
    } else {
        None
    }
}

/// What kind of value an option of a field takes.
pub fn option_kind(name: &str) -> (r: Option<OptionKind>)
    ensures
        r == kind_of(name@),
{
    if same(name, "title") || same(name, "name") || same(name, "item_title") || same(name, "format")
        || same(name, "pattern") {
        Some(OptionKind::Text)
    } else if same(name, "default") {
        Some(OptionKind::Expr)
    } else if same(name, "hidden") || same(name, "advanced") || same(name, "deprecated") {
        Some(OptionKind::Flag)
    } else if same(name, "min") || same(name, "max") || same(name, "multiple_of") {
        Some(OptionKind::Literal)
    } else if same(name, "min_items") || same(name, "max_items") {
        Some(OptionKind::Count)
    } else {
        None
    }
}

/// The options of a field.
#[derive(Debug)]
pub struct FieldAttrs {
    pub title: Option<String>,
    pub name: Option<String>,
    pub default: Option<String>,
    pub item_title: Option<String>,
    pub hidden: bool,
    pub advanced: bool,
    pub deprecated: bool,
    pub format: Option<String>,
    pub pattern: Option<String>,
    pub min: Option<BoundLit>,
    pub max: Option<BoundLit>,
    pub multiple_of: Option<BoundLit>,
    pub min_items: Option<u64>,
    pub max_items: Option<u64>,
}

/// A field without options.
pub open spec fn no_attrs() -> FieldAttrs {
    FieldAttrs {
        title: None,
        name: None,
        default: None,
        item_title: None,
        hidden: false,
        advanced: false,
        deprecated: false,
        format: None,
        pattern: None,
        min: None,
        max: None,
        multiple_of: None,
        min_items: None,
        max_items: None,
    }
}

impl Default for FieldAttrs {
    fn default() -> (a: Self)
        ensures
            a == no_attrs(),
    {
        FieldAttrs {
            title: None,
            name: None,
            default: None,
            item_title: None,
            hidden: false,
            advanced: false,
            deprecated: false,
            format: None,
            pattern: None,
            min: None,
            max: None,
            multiple_of: None,
            min_items: None,
            max_items: None,
        }
    }
}

/// The options with one more; nothing if the option is not known, or takes another kind
/// of value.
pub open spec fn with_option(a: FieldAttrs, name: Seq<char>, v: OptionValue) -> Option<FieldAttrs> {
    match (kind_of(name), v) {
        (Some(OptionKind::Text), OptionValue::Text(t)) => Some(
            if name == "title"@ {
                FieldAttrs { title: Some(t), ..a }
            } else if name == "name"@ {
                FieldAttrs { name: Some(t), ..a }
            } else if name == "item_title"@ {
                FieldAttrs { item_title: Some(t), ..a }
            } else if name == "format"@ {
                FieldAttrs { format: Some(t), ..a }
            } else {
                FieldAttrs { pattern: Some(t), ..a }
            },
        ),
        (Some(OptionKind::Expr), OptionValue::Expr(t)) => Some(
            FieldAttrs { default: Some(t), ..a },
        ),
        (Some(OptionKind::Flag), OptionValue::Flag) => Some(
            if name == "hidden"@ {
                FieldAttrs { hidden: true, ..a }
            } else if name == "advanced"@ {
                FieldAttrs { advanced: true, ..a }
            } else {
                FieldAttrs { deprecated: true, ..a }
            },
        ),
        (Some(OptionKind::Literal), OptionValue::Literal(l)) => Some(
            if name == "min"@ {
                FieldAttrs { min: Some(l), ..a }
            } else if name == "max"@ {
                FieldAttrs { max: Some(l), ..a }
            } else {
                FieldAttrs { multiple_of: Some(l), ..a }
            },
        ),
        (Some(OptionKind::Count), OptionValue::Count(n)) => Some(
            if name == "min_items"@ {
                FieldAttrs { min_items: Some(n), ..a }
            } else {
                FieldAttrs { max_items: Some(n), ..a }
            },
        ),
        _ => None,
    }
}

/// The message that an option is not accepted.
pub open spec fn option_fault(name: Seq<char>) -> Seq<char> {
    (if kind_of(name) is None {
        "unknown #[config] option `"@
    } else {
        "wrong kind of value for #[config] option `"@
    }) + name + "`"@
}

/// The options that a list gives, or what is wrong with the first that is not accepted.
/// Of two options with one name the later wins.
pub open spec fn attrs_of(list: Seq<(String, OptionValue)>) -> Result<FieldAttrs, Seq<char>>
    decreases list.len(),
{
    if list.len() == 0 {
        Ok(no_attrs())
    } else {
        match attrs_of(list.drop_last()) {
            Err(m) => Err(m),
            Ok(a) => match with_option(a, list.last().0@, list.last().1) {
                Some(b) => Ok(b),
                None => Err(option_fault(list.last().0@)),
            },
        }
    }
}

proof fn lemma_attrs_fault(list: Seq<(String, OptionValue)>, n: int)
    requires
        0 <= n <= list.len(),
        attrs_of(list.take(n)) is Err,
    ensures
        attrs_of(list) == attrs_of(list.take(n)),
    decreases list.len(),
{
    if n == list.len() {
        assert(list.take(n) =~= list);
    } else {
        assert(list.drop_last().take(n) =~= list.take(n));
        lemma_attrs_fault(list.drop_last(), n);
    }
}

impl FieldAttrs {
    fn set(self, name: &str, v: OptionValue) -> (r: Option<FieldAttrs>)
        ensures
            r == with_option(self, name@, v),
    {
        match v {
            OptionValue::Text(t) => {
                if same(name, "title") {
                    Some(FieldAttrs { title: Some(t), ..self })
                } else if same(name, "name") {
                    Some(FieldAttrs { name: Some(t), ..self })
                } else if same(name, "item_title") {
                    Some(FieldAttrs { item_title: Some(t), ..self })
                } else if same(name, "format") {
                    Some(FieldAttrs { format: Some(t), ..self })
                } else if same(name, "pattern") {
                    Some(FieldAttrs { pattern: Some(t), ..self })
                } else {
                    None
                }
            },
            OptionValue::Expr(t) => match option_kind(name) {
                Some(OptionKind::Expr) => Some(FieldAttrs { default: Some(t), ..self }),
                _ => None,
            },
            OptionValue::Flag => match option_kind(name) {
                Some(OptionKind::Flag) => {
                    if same(name, "hidden") {
                        Some(FieldAttrs { hidden: true, ..self })
                    } else if same(name, "advanced") {
                        Some(FieldAttrs { advanced: true, ..self })
                    } else {
                        Some(FieldAttrs { deprecated: true, ..self })
                    }
                },
                _ => None,
            },
            OptionValue::Literal(l) => match option_kind(name) {
                Some(OptionKind::Literal) => {
                    if same(name, "min") {
                        Some(FieldAttrs { min: Some(l), ..self })
                    } else if same(name, "max") {
                        Some(FieldAttrs { max: Some(l), ..self })
                    } else {
                        Some(FieldAttrs { multiple_of: Some(l), ..self })
                    }
                },
                _ => None,
            },
            OptionValue::Count(n) => match option_kind(name) {
                Some(OptionKind::Count) => {
                    if same(name, "min_items") {
                        Some(FieldAttrs { min_items: Some(n), ..self })
                    } else {
                        Some(FieldAttrs { max_items: Some(n), ..self })
                    }
                },
                _ => None,
            },
        }
    }
}

/// The options that a list gives.
pub fn parse_field_attrs(options: Vec<(String, OptionValue)>) -> (r: Result<FieldAttrs, String>)
    ensures
        match (attrs_of(options@), r) {
            (Ok(a), Ok(b)) => a == b,
            (Err(t), Err(m)) => m@ == t,
            _ => false,
        },
{
    let ghost all = options@;
    let ghost mut k: int = 0;
    let mut rest = options;
    let mut attrs = FieldAttrs::default();
    assert(all.take(0) =~= Seq::empty());
    while rest.len() > 0
        invariant
            0 <= k,
            all == options@,
            k + rest@.len() == all.len(),
            forall|i: int| 0 <= i < rest@.len() ==> #[trigger] rest@[i] == all[k + i],
            attrs_of(all.take(k)) == Ok::<FieldAttrs, Seq<char>>(attrs),
        decreases rest@.len(),
    {
        let (name, value) = rest.remove(0);
        proof {
            assert((name, value) == all[k]);
            assert(all.take(k + 1).drop_last() =~= all.take(k));
            assert(all.take(k + 1).last() == all[k]);
        }
        match attrs.set(name.as_str(), value) {
            Some(a) => {
                attrs = a;
            },
            None => {
                proof {
                    lemma_attrs_fault(all, k + 1);
                }
                let start = if option_kind(name.as_str()).is_none() {
                    "unknown #[config] option `"
                } else {
                    "wrong kind of value for #[config] option `"
                };
                let mut m = concat(start, name.as_str());
                m.append("`");
                return Err(m);
            },
        }
        proof {
            k = k + 1;
        }
    }
    assert(all.take(k) =~= all);
    Ok(attrs)
}

// ---- types -----------------------------------------------------------------------------

/// A type in a declaration.
#[derive(Debug)]
pub struct TypeDesc {
    /// Its tokens.
    pub text: String,
    /// The last segment of its path, if it is one.
    pub last: Option<String>,
    /// What stands between its angle brackets, if that is one type and no more.
    pub inner: Option<Box<TypeDesc>>,
}

/// The type inside a wrapper; nothing if the type is another.
pub open spec fn inside(ty: TypeDesc, wrapper: Seq<char>) -> Option<TypeDesc> {
    if opt_chars(ty.last) == Some(wrapper) {
        match ty.inner {
            Some(t) => Some(*t),
            None => None,
        }
    } else {
        None
    }
}

/// The type inside a wrapper.
pub fn generic_inner<'a>(ty: &'a TypeDesc, wrapper: &str) -> (r: Option<&'a TypeDesc>)
    ensures
        match r {
            Some(t) => inside(*ty, wrapper@) == Some(*t),
            None => inside(*ty, wrapper@) is None,
        },
{
    match &ty.last {
        Some(l) => {
            if same(l.as_str(), wrapper) {
                match &ty.inner {
                    Some(t) => Some(&**t),
                    None => None,
                }
            } else {
                None
            }
        },
        None => None,
    }
}

// ---- the code of a field -------------------------------------------------------------------

/// A field of a declared configuration.
#[derive(Debug)]
pub struct FieldDecl {
    pub name: String,
    pub ty: TypeDesc,
    pub attrs: FieldAttrs,
    /// The lines of its comment.
    pub docs: Vec<String>,
}

/// The code of a number.
pub open spec fn number_code(lit: BoundLit) -> Option<Seq<char>> {
    match lit {
        BoundLit::Whole(n) => Some(
            "::doover::__private::serde_json::Number::from("@ + decimal_int(n as int) + "i64)"@,
        ),
        BoundLit::Fraction(t) => Some(
            "::doover::__private::serde_json::Number::from_f64("@ + t@
                + "f64).expect(\"config bound must be finite\")"@,
        ),
        BoundLit::Other => None,
    }
}

fn number_tokens(lit: &BoundLit) -> (r: Option<String>)
    ensures
        opt_chars(r) == number_code(*lit),
{
    match lit {
        BoundLit::Whole(n) => {
            let mut s = concat(
                "::doover::__private::serde_json::Number::from(",
                write_i64(*n).as_str(),
            );
            s.append("i64)");
            Some(s)
        },
        BoundLit::Fraction(t) => {
            let mut s = concat(
                "::doover::__private::serde_json::Number::from_f64(",
                t.as_str(),
            );
            s.append("f64).expect(\"config bound must be finite\")");
            Some(s)
        },
        BoundLit::Other => None,
    }
}

impl FieldDecl {
    /// The key of the field.
    pub open spec fn key(&self) -> Seq<char> {
        match self.attrs.name {
            Some(n) => n@,
            None => self.name@,
        }
    }

    /// The title of the field.
    pub open spec fn title(&self) -> Seq<char> {
        match self.attrs.title {
            Some(t) => t@,
            None => titled(self.name@),
        }
    }

    /// Whether the field may be missing.
    pub open spec fn is_option(&self) -> bool {
        inside(self.ty, "Option"@) is Some
    }

    /// The type of the field, without the wrapper of one that may be missing.
    pub open spec fn inner_ty(&self) -> TypeDesc {
        match inside(self.ty, "Option"@) {
            Some(t) => t,
            None => self.ty,
        }
    }

    /// What is wrong with the declaration; nothing if it is accepted.
    pub open spec fn fault(&self) -> Option<Seq<char>> {
        if self.attrs.name is Some && !(forall|i: int|
            0 <= i < self.key().len() ==> key_mark(#[trigger] self.key()[i])) {
            Some(
                "invalid config key "@ + debug_text(self.key())
                    + ": keys must only contain alphanumeric characters, hyphens (-), underscores (_) and spaces ( )"@,
            )
        } else if self.attrs.title is Some && self.attrs.name is None && sanitized(self.title())
            != self.name@ {
            Some(
                "#[config(title = "@ + debug_text(self.title()) + ")] sanitizes to "@ + debug_text(
                    sanitized(self.title()),
                ) + " but the field is named "@ + debug_text(self.name@)
                    + "; pydoover derives the config key from the title, so rename the field to "@
                    + debug_text(sanitized(self.title())) + " or add #[config(name = \"...\")]"@,
            )
        } else if inside(self.inner_ty(), "Vec"@) is Some && self.attrs.item_title is None {
            Some(
                "Vec<T> config fields need #[config(item_title = \"...\")] — the display title of the array's item element"@,
            )
        } else if not_a_number(self.attrs.min) || not_a_number(self.attrs.max) || not_a_number(
            self.attrs.multiple_of,
        ) {
            Some("expected an integer or float literal"@)
        } else {
            None
        }
    }

    /// The code that makes the element.
    pub open spec fn construct_code(&self) -> Seq<char> {
        match inside(self.inner_ty(), "Vec"@) {
            Some(item) => {
                let q = debug_text(opt_chars(self.attrs.item_title).unwrap());
                "let __item = <"@ + item.text@
                    + " as ::doover::config::ConfigElementBuild>::element("@ + q
                    + ", &::doover::config::sanitize_display_name("@ + q
                    + ")); let mut __el = ::doover::config::ElementSchema::array("@ + debug_text(
                    self.title(),
                ) + ", "@ + debug_text(self.key()) + ", __item); "@
            },
            None => "let mut __el = <"@ + self.inner_ty().text@
                + " as ::doover::config::ConfigElementBuild>::element("@ + debug_text(self.title())
                + ", "@ + debug_text(self.key()) + "); "@,
        }
    }

    /// The code that gives the element its default: the declared one, or null for a
    /// field that may be missing.
    pub open spec fn default_code(&self) -> Seq<char> {
        match self.attrs.default {
            Some(e) => "let __default: "@ + self.inner_ty().text@
                + " = ::core::convert::Into::into("@ + e@
                + "); __el.default = ::core::option::Option::Some(::doover::config::ToConfigValue::to_config_value(&__default)); "@,
            None => if self.is_option() {
                "__el.default = ::core::option::Option::Some(::doover::__private::serde_json::Value::Null); "@
            } else {
                Seq::empty()
            },
        }
    }

    /// The code of the field: it makes the element, gives it what the options say, and
    /// adds it to the list.
    pub open spec fn code(&self, position: u32) -> Seq<char> {
        let comment = comment_text(self.docs@);
        "{ "@ + self.construct_code() + ("__el.position = ::core::option::Option::Some("@ + decimal(
            position as nat,
        ) + "u32); "@) + text_call(
            "__el.description = ::core::option::Option::Some("@,
            if comment.len() > 0 {
                Some(comment)
            } else {
                None
            },
            ".to_string()); "@,
        ) + flag_code(self.attrs.hidden, "__el.hidden = true; "@) + flag_code(
            self.attrs.advanced,
            "__el.advanced = ::core::option::Option::Some(true); "@,
        ) + flag_code(
            self.attrs.deprecated,
            "__el.deprecated = ::core::option::Option::Some(true); "@,
        ) + text_call(
            "__el.format = ::core::option::Option::Some("@,
            opt_chars(self.attrs.format),
            ".to_string()); "@,
        ) + text_call("__el.set_pattern("@, opt_chars(self.attrs.pattern), "); "@) + bound_code(
            "__el.set_minimum("@,
            self.attrs.min,
        ) + bound_code("__el.set_maximum("@, self.attrs.max) + bound_code(
            "__el.set_multiple_of("@,
            self.attrs.multiple_of,
        ) + count_code("__el.set_min_items("@, self.attrs.min_items) + count_code(
            "__el.set_max_items("@,
            self.attrs.max_items,
        ) + self.default_code() + "__els.push(__el); }"@
    }
}

/// Whether a bound is given that is no number.
pub open spec fn not_a_number(lit: Option<BoundLit>) -> bool {
    match lit {
        Some(l) => number_code(l) is None,
        None => false,
    }
}

/// The code of a flag.
pub open spec fn flag_code(set: bool, code: Seq<char>) -> Seq<char> {
    if set {
        code
    } else {
        Seq::empty()
    }
}

/// The code of a call with a string, if there is one.
pub open spec fn text_call(start: Seq<char>, text: Option<Seq<char>>, end: Seq<char>) -> Seq<char> {
    match text {
        Some(t) => start + debug_text(t) + end,
        None => Seq::empty(),
    }
}

/// The code of a call with a number, if there is one.
pub open spec fn bound_code(start: Seq<char>, lit: Option<BoundLit>) -> Seq<char> {
    match lit {
        Some(l) => match number_code(l) {
            Some(n) => start + n + "); "@,
            None => Seq::empty(),
        },
        None => Seq::empty(),
    }
}

/// The code of a call with a count, if there is one.
pub open spec fn count_code(start: Seq<char>, n: Option<u64>) -> Seq<char> {
    match n {
        Some(n) => start + decimal(n as nat) + "u64); "@,
        None => Seq::empty(),
    }
}

fn blank() -> (s: String)
    ensures
        s@ == Seq::<char>::empty(),
{
    let s = String::new();
    assert(s@ =~= Seq::empty());
    s
}

fn emit_flag(set: bool, code: &str) -> (s: String)
    ensures
        s@ == flag_code(set, code@),
{
    if set {
        code.to_owned()
    } else {
        blank()
    }
}

fn emit_text(start: &str, text: &Option<String>, end: &str) -> (s: String)
    ensures
        s@ == text_call(start@, opt_chars(*text), end@),
{
    match text {
        Some(t) => {
            let mut s = concat(start, quoted(t.as_str()).as_str());
            s.append(end);
            s
        },
        None => blank(),
    }
}

fn emit_bound(start: &str, lit: &Option<BoundLit>) -> (s: String)
    ensures
        s@ == bound_code(start@, *lit),
{
    match lit {
        Some(l) => match number_tokens(l) {
            Some(n) => {
                let mut s = concat(start, n.as_str());
                s.append("); ");
                s
            },
            None => blank(),
        },
        None => blank(),
    }
}

fn emit_count(start: &str, n: Option<u64>) -> (s: String)
    ensures
        s@ == count_code(start@, n),
{
    match n {
        Some(n) => {
            let mut s = concat(start, write_u64(n).as_str());
            s.append("u64); ");
            s
        },
        None => blank(),
    }
}

fn bad_bound(lit: &Option<BoundLit>) -> (r: bool)
    ensures
        r == not_a_number(*lit),
{
    match lit {
        Some(BoundLit::Other) => true,
        _ => false,
    }
}

impl FieldDecl {
    fn get_key(&self) -> (r: String)
        ensures
            r@ == self.key(),
    {
        match &self.attrs.name {
            Some(n) => n.clone(),
            None => self.name.clone(),
        }
    }

    fn get_title(&self) -> (r: String)
        ensures
            r@ == self.title(),
    {
        match &self.attrs.title {
            Some(t) => t.clone(),
            None => title_case(self.name.as_str()),
        }
    }

    fn get_inner_ty(&self) -> (r: &TypeDesc)
        ensures
            *r == self.inner_ty(),
    {
        match generic_inner(&self.ty, "Option") {
            Some(t) => t,
            None => &self.ty,
        }
    }

    /// What is wrong with the declaration; nothing if it is accepted.
    pub fn check(&self) -> (r: Option<String>)
        ensures
            opt_chars(r) == self.fault(),
    {
        if let Some(name) = &self.attrs.name {
            if !check_key(name.as_str()) {
                let mut m = concat("invalid config key ", quoted(name.as_str()).as_str());
                m.append(
                    ": keys must only contain alphanumeric characters, hyphens (-), underscores (_) and spaces ( )",
                );
                return Some(m);
            }
        }
        if self.attrs.title.is_some() && self.attrs.name.is_none() {
            let title = self.get_title();
            let clean = sanitize_display_name(title.as_str());
            if !same(clean.as_str(), self.name.as_str()) {
                let mut m = concat("#[config(title = ", quoted(title.as_str()).as_str());
                m.append(")] sanitizes to ");
                m.append(quoted(clean.as_str()).as_str());
                m.append(" but the field is named ");
                m.append(quoted(self.name.as_str()).as_str());
                m.append("; pydoover derives the config key from the title, so rename the field to ");
                m.append(quoted(clean.as_str()).as_str());
                m.append(" or add #[config(name = \"...\")]");
                return Some(m);
            }
        }
        if generic_inner(self.get_inner_ty(), "Vec").is_some() && self.attrs.item_title.is_none() {
            return Some(
                "Vec<T> config fields need #[config(item_title = \"...\")] — the display title of the array's item element".to_owned(),
            );
        }
        if bad_bound(&self.attrs.min) || bad_bound(&self.attrs.max) || bad_bound(
            &self.attrs.multiple_of,
        ) {
            return Some("expected an integer or float literal".to_owned());
        }
        None
    }

    fn construct(&self) -> (s: String)
        requires
            self.fault() is None,
        ensures
            s@ == self.construct_code(),
    {
        let title = self.get_title();
        let key = self.get_key();
        let inner = self.get_inner_ty();
        match (generic_inner(inner, "Vec"), &self.attrs.item_title) {
            (Some(item), Some(item_title)) => {
                let q = quoted(item_title.as_str());
                let mut s = concat("let __item = <", item.text.as_str());
                s.append(" as ::doover::config::ConfigElementBuild>::element(");
                s.append(q.as_str());
                s.append(", &::doover::config::sanitize_display_name(");
                s.append(q.as_str());
                s.append(")); let mut __el = ::doover::config::ElementSchema::array(");
                s.append(quoted(title.as_str()).as_str());
                s.append(", ");
                s.append(quoted(key.as_str()).as_str());
                s.append(", __item); ");
                s
            },
            _ => {
                let mut s = concat("let mut __el = <", inner.text.as_str());
                s.append(" as ::doover::config::ConfigElementBuild>::element(");
                s.append(quoted(title.as_str()).as_str());
                s.append(", ");
                s.append(quoted(key.as_str()).as_str());
                s.append("); ");
                s
            },
        }
    }

    fn emit_default(&self) -> (s: String)
        ensures
            s@ == self.default_code(),
    {
        match &self.attrs.default {
            Some(e) => {
                let mut s = concat("let __default: ", self.get_inner_ty().text.as_str());
                s.append(" = ::core::convert::Into::into(");
                s.append(e.as_str());
                s.append(
                    "); __el.default = ::core::option::Option::Some(::doover::config::ToConfigValue::to_config_value(&__default)); ",
                );
                s
            },
            None => {
                if generic_inner(&self.ty, "Option").is_some() {
                    "__el.default = ::core::option::Option::Some(::doover::__private::serde_json::Value::Null); ".to_owned()
                } else {
                    blank()
                }
            },
        }
    }

    /// The code of the field, or what is wrong with it.
    pub fn field_element_block(&self, position: u32) -> (r: Result<String, String>)
        ensures
            match (self.fault(), r) {
                (None, Ok(s)) => s@ == self.code(position),
                (Some(t), Err(m)) => m@ == t,
                _ => false,
            },
    {
        if let Some(m) = self.check() {
            return Err(m);
        }
        let mut place = concat(
            "__el.position = ::core::option::Option::Some(",
            write_u64(position as u64).as_str(),
        );
        place.append("u32); ");
        let mut s = concat("{ ", self.construct().as_str());
        s.append(place.as_str());
        s.append(
            emit_text(
                "__el.description = ::core::option::Option::Some(",
                &doc_comment(&self.docs),
                ".to_string()); ",
            ).as_str(),
        );
        s.append(emit_flag(self.attrs.hidden, "__el.hidden = true; ").as_str());
        s.append(
            emit_flag(
                self.attrs.advanced,
                "__el.advanced = ::core::option::Option::Some(true); ",
            ).as_str(),
        );
        s.append(
            emit_flag(
                self.attrs.deprecated,
                "__el.deprecated = ::core::option::Option::Some(true); ",
            ).as_str(),
        );
        s.append(
            emit_text(
                "__el.format = ::core::option::Option::Some(",
                &self.attrs.format,
                ".to_string()); ",
            ).as_str(),
        );
        s.append(emit_text("__el.set_pattern(", &self.attrs.pattern, "); ").as_str());
        s.append(emit_bound("__el.set_minimum(", &self.attrs.min).as_str());
        s.append(emit_bound("__el.set_maximum(", &self.attrs.max).as_str());
        s.append(emit_bound("__el.set_multiple_of(", &self.attrs.multiple_of).as_str());
        s.append(emit_count("__el.set_min_items(", self.attrs.min_items).as_str());
        s.append(emit_count("__el.set_max_items(", self.attrs.max_items).as_str());
        s.append(self.emit_default().as_str());
        s.append("__els.push(__el); }");
        Ok(s)
    }
}

} // verus!
