//! Elements with a meaning of their own: where an application stands in the user
//! interface, and references to applications, devices, groups and tags.
use vstd::prelude::*;

use crate::config::load::{
    at_element, field_optional, field_or, present, unbounded, ConfigElementBuild, FromConfigValue,
};
use crate::config::schema::{ElementKind, ElementSchema, NumericBounds, StringBounds};
use crate::error::DooverError;
use crate::json::{at, opt_doc, Entries, Json, Number, Value};
use crate::json_text::written;
use crate::text::{chars, opt_chars};

verus! {

/// What becomes of a character in a name: a space turns into an underscore,
/// letters of the alphabet become small, digits and underscores stay, and anything
/// else is dropped.
pub open spec fn clean_char(c: char) -> Option<char> {
    if c == ' ' {
        Some('_')
    } else if 'A' <= c <= 'Z' {
        Some((c as u32 + 32) as char)
    } else if 'a' <= c <= 'z' || '0' <= c <= '9' || c == '_' {
        Some(c)
    } else {
        None
    }
}

/// The name that a title gives.
pub open spec fn sanitized(s: Seq<char>) -> Seq<char>
    decreases s.len(),
{
    if s.len() == 0 {
        Seq::empty()
    } else {
        match clean_char(s.last()) {
            Some(c) => sanitized(s.drop_last()).push(c),
            None => sanitized(s.drop_last()),
        }
    }
}

fn clean(c: char) -> (r: Option<char>)
    ensures
        r == clean_char(c),
{
    if c == ' ' {
        Some('_')
    } else if c >= 'A' && c <= 'Z' {
        Some((c as u8 + 32u8) as char)
    } else if (c >= 'a' && c <= 'z') || (c >= '0' && c <= '9') || c == '_' {
        Some(c)
    } else {
        None
    }
}

/// The name that a title gives: the key of the element.
pub fn sanitize_display_name(name: &str) -> (r: String)
    ensures
        r@ == sanitized(name@),
{
    let v = chars(name);
    let mut r = String::new();
    let mut i: usize = 0;
    assert(v@.take(0) =~= Seq::empty());
    assert(r@ =~= Seq::empty());
    while i < v.len()
        invariant
            i <= v@.len(),
            r@ == sanitized(v@.take(i as int)),
        decreases v@.len() - i,
    {
        proof {
            assert(v@.take(i as int + 1).drop_last() =~= v@.take(i as int));
            assert(v@.take(i as int + 1).last() == v@[i as int]);
        }
        if let Some(c) = clean(v[i]) {
            r.push(c);
        }
        i += 1;
    }
    assert(v@.take(v@.len() as int) =~= v@);
    r
}

/// Whether a character can stand in a name.
pub open spec fn name_char(c: char) -> bool {
    'a' <= c <= 'z' || '0' <= c <= '9' || c == '_'
}

/// A name holds small letters, digits and underscores, nothing else.
pub proof fn law_names_are_clean(s: Seq<char>)
    ensures
        forall|i: int| 0 <= i < sanitized(s).len() ==> name_char(#[trigger] sanitized(s)[i]),
    decreases s.len(),
{
    if s.len() > 0 {
        law_names_are_clean(s.drop_last());
        let before = sanitized(s.drop_last());
        assert forall|i: int| 0 <= i < sanitized(s).len() implies name_char(
            #[trigger] sanitized(s)[i],
        ) by {
            if i < before.len() {
                assert(name_char(before[i]));
            }
        }
    }
}

/// A name is its own name.
pub proof fn law_sanitizing_twice(s: Seq<char>)
    ensures
        sanitized(sanitized(s)) == sanitized(s),
    decreases s.len(),
{
    if s.len() > 0 {
        law_sanitizing_twice(s.drop_last());
        let before = sanitized(s.drop_last());
        if let Some(c) = clean_char(s.last()) {
            law_names_are_clean(s);
            let all = sanitized(s);
            assert(all.drop_last() =~= before);
            assert(name_char(all[all.len() - 1]));
        }
    }
}

// ---- where an application stands --------------------------------------------------------

/// Where an application stands in the user interface.
#[derive(Debug, Clone, Copy, PartialEq, Eq, Structural)]
pub struct ApplicationPosition(pub i64);

impl Default for ApplicationPosition {
    fn default() -> (p: Self)
        ensures
            p.0 == 100,
    {
        ApplicationPosition(100)
    }
}

/// What [`ApplicationPosition`] says of itself.
pub const POSITION_TEXT: &'static str =
    "Position of Application in UI Structure. Smaller numbers are closer to the top.";

impl ConfigElementBuild for ApplicationPosition {
    open spec fn is_element(e: ElementSchema, title: Seq<char>, name: Seq<char>) -> bool {
        &&& e.title@ == "Position"@
        &&& e.name@ == "dv_app_position"@
        &&& e.hidden
        &&& e.format is None
        &&& e.required is None
        &&& opt_chars(e.description) == Some(POSITION_TEXT@)
        &&& opt_doc(e.default) == Some(Json::Int(100))
        &&& e.position is None
        &&& e.deprecated is None
        &&& e.advanced is None
        &&& e.kind == ElementKind::Integer(
            NumericBounds { minimum: Some(Number::Unsigned(0)), ..unbounded() },
        )
    }

    fn element(_title: &str, _name: &str) -> (e: ElementSchema) {
        let mut e = ElementSchema::integer("Position", "dv_app_position");
        e.hidden = true;
        e.description = Some(POSITION_TEXT.to_owned());
        e.default = Some(Value::unsigned(100));
        e.set_minimum(Number::Unsigned(0));
        e
    }
}

impl FromConfigValue for ApplicationPosition {
    open spec fn fault(j: Json) -> Option<Seq<char>> {
        i64::fault(j)
    }

    open spec fn loaded(&self, j: Json) -> bool {
        self.0.loaded(j)
    }

    fn from_config_value(v: &Value) -> (r: Result<Self, DooverError>) {
        match i64::from_config_value(v) {
            Ok(n) => Ok(ApplicationPosition(n)),
            Err(e) => Err(e),
        }
    }
}

/// Whether an application starts open in the user interface. If unset, that
/// depends on how many applications there are.
#[derive(Debug, Clone, Copy, PartialEq, Eq, Structural)]
pub struct ApplicationDefaultOpen(pub Option<bool>);

impl Default for ApplicationDefaultOpen {
    fn default() -> (p: Self)
        ensures
            p.0 is None,
    {
        ApplicationDefaultOpen(None)
    }
}

/// What [`ApplicationDefaultOpen`] says of itself.
pub const DEFAULT_OPEN_TEXT: &'static str =
    "Whether the application is default open in the UI. By default this is not set - which makes it dynamic on the number of apps installed.";

impl ConfigElementBuild for ApplicationDefaultOpen {
    open spec fn is_element(e: ElementSchema, title: Seq<char>, name: Seq<char>) -> bool {
        &&& e.title@ == "Default Open"@
        &&& e.name@ == "dv_app_default_open"@
        &&& e.hidden
        &&& e.format is None
        &&& e.required is None
        &&& opt_chars(e.description) == Some(DEFAULT_OPEN_TEXT@)
        &&& opt_doc(e.default) == Some(Json::Null)
        &&& e.position is None
        &&& e.deprecated is None
        &&& e.advanced is None
        &&& e.kind is Boolean
    }

    fn element(_title: &str, _name: &str) -> (e: ElementSchema) {
        let mut e = ElementSchema::boolean("Default Open", "dv_app_default_open");
        e.hidden = true;
        e.description = Some(DEFAULT_OPEN_TEXT.to_owned());
        e.default = Some(Value::Null);
        e
    }
}

impl FromConfigValue for ApplicationDefaultOpen {
    open spec fn fault(j: Json) -> Option<Seq<char>> {
        Option::<bool>::fault(j)
    }

    open spec fn loaded(&self, j: Json) -> bool {
        self.0.loaded(j)
    }

    fn from_config_value(v: &Value) -> (r: Result<Self, DooverError>) {
        match Option::<bool>::from_config_value(v) {
            Ok(b) => Ok(ApplicationDefaultOpen(b)),
            Err(e) => Err(e),
        }
    }
}

// ---- references -------------------------------------------------------------------------

/// A string element for picking something.
pub open spec fn is_picker(
    e: ElementSchema,
    title: Seq<char>,
    name: Seq<char>,
    description: Seq<char>,
    format: Seq<char>,
    pattern: Option<Seq<char>>,
) -> bool {
    &&& e.title@ == title
    &&& e.name@ == name
    &&& !e.hidden
    &&& opt_chars(e.format) == Some(format)
    &&& e.required is None
    &&& opt_chars(e.description) == Some(description)
    &&& e.default is None
    &&& e.position is None
    &&& e.deprecated is None
    &&& e.advanced is None
    &&& match pattern {
        Some(p) => e.kind.is_string(None, p),
        None => e.kind == ElementKind::String(StringBounds { length: None, pattern: None }),
    }
}

/// The application that was picked.
#[derive(Debug, Clone, PartialEq, Eq)]
pub struct ApplicationRef(pub String);

impl Default for ApplicationRef {
    fn default() -> (r: Self)
        ensures
            r.0@.len() == 0,
    {
        ApplicationRef(String::new())
    }
}

impl ConfigElementBuild for ApplicationRef {
    open spec fn is_element(e: ElementSchema, title: Seq<char>, name: Seq<char>) -> bool {
        is_picker(e, title, name, "Application"@, "doover-resource-application"@, None)
    }

    fn element(title: &str, name: &str) -> (e: ElementSchema) {
        let mut e = ElementSchema::string(title, name);
        e.description = Some("Application".to_owned());
        e.format = Some("doover-resource-application".to_owned());
        e
    }
}

impl FromConfigValue for ApplicationRef {
    open spec fn fault(j: Json) -> Option<Seq<char>> {
        String::fault(j)
    }

    open spec fn loaded(&self, j: Json) -> bool {
        self.0.loaded(j)
    }

    fn from_config_value(v: &Value) -> (r: Result<Self, DooverError>) {
        match String::from_config_value(v) {
            Ok(s) => Ok(ApplicationRef(s)),
            Err(e) => Err(e),
        }
    }
}

/// The device that was picked.
#[derive(Debug, Clone, PartialEq, Eq)]
pub struct DeviceRef(pub String);

impl Default for DeviceRef {
    fn default() -> (r: Self)
        ensures
            r.0@.len() == 0,
    {
        DeviceRef(String::new())
    }
}

impl ConfigElementBuild for DeviceRef {
    open spec fn is_element(e: ElementSchema, title: Seq<char>, name: Seq<char>) -> bool {
        is_picker(e, title, name, "Device ID"@, "doover-resource-device"@, Some("\\d+"@))
    }

    fn element(title: &str, name: &str) -> (e: ElementSchema) {
        let mut e = ElementSchema::string(title, name);
        e.description = Some("Device ID".to_owned());
        e.format = Some("doover-resource-device".to_owned());
        e.set_pattern("\\d+");
        e
    }
}

impl FromConfigValue for DeviceRef {
    open spec fn fault(j: Json) -> Option<Seq<char>> {
        String::fault(j)
    }

    open spec fn loaded(&self, j: Json) -> bool {
        self.0.loaded(j)
    }

    fn from_config_value(v: &Value) -> (r: Result<Self, DooverError>) {
        match String::from_config_value(v) {
            Ok(s) => Ok(DeviceRef(s)),
            Err(e) => Err(e),
        }
    }
}

/// The group that was picked.
#[derive(Debug, Clone, PartialEq, Eq)]
pub struct GroupRef(pub String);

impl Default for GroupRef {
    fn default() -> (r: Self)
        ensures
            r.0@.len() == 0,
    {
        GroupRef(String::new())
    }
}

impl ConfigElementBuild for GroupRef {
    open spec fn is_element(e: ElementSchema, title: Seq<char>, name: Seq<char>) -> bool {
        is_picker(e, title, name, "Group ID"@, "doover-resource-group"@, Some("\\d+"@))
    }

    fn element(title: &str, name: &str) -> (e: ElementSchema) {
        let mut e = ElementSchema::string(title, name);
        e.description = Some("Group ID".to_owned());
        e.format = Some("doover-resource-group".to_owned());
        e.set_pattern("\\d+");
        e
    }
}

impl FromConfigValue for GroupRef {
    open spec fn fault(j: Json) -> Option<Seq<char>> {
        String::fault(j)
    }

    open spec fn loaded(&self, j: Json) -> bool {
        self.0.loaded(j)
    }

    fn from_config_value(v: &Value) -> (r: Result<Self, DooverError>) {
        match String::from_config_value(v) {
            Ok(s) => Ok(GroupRef(s)),
            Err(e) => Err(e),
        }
    }
}

// ---- a tag of another application ---------------------------------------------------------

/// A reference to a tag that another application publishes. The operator picks the
/// application and the tag.
#[derive(Debug, Clone, PartialEq, Eq)]
pub struct TagRef {
    /// A local handle for the reference.
    pub reference_name: String,
    /// The agent that owns the tag; this agent if missing.
    pub agent_id: Option<String>,
    /// The key of the other application.
    pub app_name: String,
    /// The name of the tag in that application.
    pub tag_name: String,
}

impl Default for TagRef {
    fn default() -> (t: Self)
        ensures
            t.is_blank(),
    {
        let t = TagRef {
            reference_name: String::new(),
            agent_id: None,
            app_name: String::new(),
            tag_name: String::new(),
        };
        assert(t.reference_name@ =~= Seq::empty());
        assert(t.app_name@ =~= Seq::empty());
        assert(t.tag_name@ =~= Seq::empty());
        t
    }
}

/// The string of a loaded field; empty if it is missing or null.
pub open spec fn text_or_empty(j: Json, key: Seq<char>) -> Seq<char> {
    match present(j, key) {
        Some(d) => match written(d) {
            Json::Str(s) => s,
            _ => Seq::empty(),
        },
        None => Seq::empty(),
    }
}

/// Why a string field cannot be loaded; nothing if it can, or is missing or null.
pub open spec fn text_fault(j: Json, key: Seq<char>) -> Option<Seq<char>> {
    match present(j, key) {
        Some(d) => match String::fault(d) {
            Some(m) => Some(at_element(key) + m),
            None => None,
        },
        None => None,
    }
}

impl TagRef {
    /// A reference that says nothing.
    pub open spec fn is_blank(&self) -> bool {
        &&& self.reference_name@ == Seq::<char>::empty()
        &&& self.agent_id is None
        &&& self.app_name@ == Seq::<char>::empty()
        &&& self.tag_name@ == Seq::<char>::empty()
    }

    /// Whether the reference points at a tag of an application.
    pub open spec fn points(&self) -> bool {
        self.app_name@.len() > 0 && self.tag_name@.len() > 0
    }

    /// Whether the reference points at a tag of an application.
    pub fn is_configured(&self) -> (r: bool)
        ensures
            r == self.points(),
    {
        chars(self.app_name.as_str()).len() > 0 && chars(self.tag_name.as_str()).len() > 0
    }

    /// The application and the tag that the reference points at, if it points.
    pub fn target(&self) -> (r: Option<(&str, &str)>)
        ensures
            match r {
                Some(t) => self.points() && t.0@ == self.app_name@ && t.1@ == self.tag_name@,
                None => !self.points(),
            },
    {
        if self.is_configured() {
            Some((self.app_name.as_str(), self.tag_name.as_str()))
        } else {
            None
        }
    }
}

/// One of the fields of a tag reference.
pub open spec fn is_ref_field(
    e: ElementSchema,
    title: Seq<char>,
    name: Seq<char>,
    hidden: bool,
    format: Option<Seq<char>>,
    description: Seq<char>,
    default: Option<Json>,
    position: u32,
) -> bool {
    &&& e.title@ == title
    &&& e.name@ == name
    &&& e.hidden == hidden
    &&& opt_chars(e.format) == format
    &&& e.required is None
    &&& opt_chars(e.description) == Some(description)
    &&& opt_doc(e.default) == default
    &&& e.position == Some(position)
    &&& e.deprecated is None
    &&& e.advanced is None
    &&& e.kind == ElementKind::String(StringBounds { length: None, pattern: None })
}

/// The fields of a tag reference. The handle is the name of the reference unless
/// the operator changes it.
pub open spec fn are_ref_fields(list: Seq<ElementSchema>, name: Seq<char>) -> bool {
    &&& list.len() == 4
    &&& is_ref_field(
        list[0],
        "Reference Name"@,
        "reference_name"@,
        true,
        None,
        "Local handle for this tag. Match this in your `RemoteTag` declaration."@,
        Some(Json::Str(name)),
        1,
    )
    &&& is_ref_field(
        list[1],
        "Agent"@,
        "agent_id"@,
        false,
        Some("doover-resource-device"@),
        "Agent that owns the upstream tag. Leave blank to use this agent."@,
        Some(Json::Null),
        2,
    )
    &&& is_ref_field(
        list[2],
        "Application"@,
        "app_name"@,
        false,
        Some("doover-application"@),
        "Application that publishes the upstream tag."@,
        None,
        3,
    )
    &&& is_ref_field(
        list[3],
        "Tag Name"@,
        "tag_name"@,
        false,
        None,
        "Name of the upstream tag within the chosen application."@,
        None,
        4,
    )
}

impl ConfigElementBuild for TagRef {
    open spec fn is_element(e: ElementSchema, title: Seq<char>, name: Seq<char>) -> bool {
        &&& e.title@ == title
        &&& e.name@ == name
        &&& !e.hidden
        &&& opt_chars(e.format) == Some("doover-tag-reference"@)
        &&& e.required is None
        &&& opt_chars(e.description) == Some("Reference to a tag in another application."@)
        &&& e.default is None
        &&& e.position is None
        &&& e.deprecated is None
        &&& e.advanced is None
        &&& match e.kind {
            ElementKind::Object {
                properties,
                additional_elements,
                collapsible,
                default_collapsed,
            } => are_ref_fields(properties@, name) && additional_elements == Value::Bool(true)
                && collapsible && !default_collapsed,
            _ => false,
        }
    }

    fn element(title: &str, name: &str) -> (e: ElementSchema) {
        let mut reference_name = ElementSchema::string("Reference Name", "reference_name");
        reference_name.hidden = true;
        reference_name.description = Some(
            "Local handle for this tag. Match this in your `RemoteTag` declaration.".to_owned(),
        );
        reference_name.default = Some(Value::text(name));
        reference_name.position = Some(1);

        let mut agent_id = ElementSchema::string("Agent", "agent_id");
        agent_id.format = Some("doover-resource-device".to_owned());
        agent_id.description = Some(
            "Agent that owns the upstream tag. Leave blank to use this agent.".to_owned(),
        );
        agent_id.default = Some(Value::Null);
        agent_id.position = Some(2);

        let mut app_name = ElementSchema::string("Application", "app_name");
        app_name.format = Some("doover-application".to_owned());
        app_name.description = Some("Application that publishes the upstream tag.".to_owned());
        app_name.position = Some(3);

        let mut tag_name = ElementSchema::string("Tag Name", "tag_name");
        tag_name.description = Some(
            "Name of the upstream tag within the chosen application.".to_owned(),
        );
        tag_name.position = Some(4);

        let mut properties: Vec<ElementSchema> = Vec::new();
        properties.push(reference_name);
        properties.push(agent_id);
        properties.push(app_name);
        properties.push(tag_name);
        assert(are_ref_fields(properties@, name@));
        let mut e = ElementSchema::object(title, name, properties);
        e.format = Some("doover-tag-reference".to_owned());
        e.description = Some("Reference to a tag in another application.".to_owned());
        e
    }
}

impl FromConfigValue for TagRef {
    open spec fn fault(j: Json) -> Option<Seq<char>> {
        if j is Null {
            None
        } else if text_fault(j, "reference_name"@) is Some {
            text_fault(j, "reference_name"@)
        } else if text_fault(j, "agent_id"@) is Some {
            text_fault(j, "agent_id"@)
        } else if text_fault(j, "app_name"@) is Some {
            text_fault(j, "app_name"@)
        } else {
            text_fault(j, "tag_name"@)
        }
    }

    open spec fn loaded(&self, j: Json) -> bool {
        &&& self.reference_name@ == text_or_empty(j, "reference_name"@)
        &&& match self.agent_id {
            Some(a) => present(j, "agent_id"@) is Some && a@ == text_or_empty(j, "agent_id"@),
            None => present(j, "agent_id"@) is None,
        }
        &&& self.app_name@ == text_or_empty(j, "app_name"@)
        &&& self.tag_name@ == text_or_empty(j, "tag_name"@)
    }

    fn from_config_value(v: &Value) -> (r: Result<Self, DooverError>) {
        if v.is_null() {
            return Ok(TagRef::default());
        }
        let empty = String::new();
        assert(empty@ =~= Seq::empty());
        let reference_name: String = match field_or(v, "reference_name", empty) {
            Ok(s) => s,
            Err(e) => {
                return Err(e);
            },
        };
        let agent_id: Option<String> = match field_optional(v, "agent_id") {
            Ok(s) => s,
            Err(e) => {
                return Err(e);
            },
        };
        let empty = String::new();
        assert(empty@ =~= Seq::empty());
        let app_name: String = match field_or(v, "app_name", empty) {
            Ok(s) => s,
            Err(e) => {
                return Err(e);
            },
        };
        let empty = String::new();
        assert(empty@ =~= Seq::empty());
        let tag_name: String = match field_or(v, "tag_name", empty) {
            Ok(s) => s,
            Err(e) => {
                return Err(e);
            },
        };
        Ok(TagRef { reference_name, agent_id, app_name, tag_name })
    }
}

/// A name is made character by character: capitals become small, spaces become underscores,
/// and what is no letter, digit or underscore is left out.
pub proof fn law_names_are_made_by_character(a: Seq<char>, b: Seq<char>, c: char)
    ensures
        sanitized(a + b) == sanitized(a) + sanitized(b),
        sanitized(seq![' ']) == seq!['_'],
        'A' <= c <= 'Z' ==> sanitized(seq![c]) == seq![(c as u32 + ('a' as u32 - 'A' as u32)) as char],
        'a' <= c <= 'z' || '0' <= c <= '9' || c == '_' ==> sanitized(seq![c]) == seq![c],
        c != ' ' && c != '_' && !('A' <= c <= 'Z') && !('a' <= c <= 'z') && !('0' <= c <= '9')
            ==> sanitized(seq![c]).len() == 0,
    decreases b.len(),
{
    reveal_with_fuel(sanitized, 2);
    assert(seq![' '].drop_last() =~= Seq::empty());
    assert(seq![c].drop_last() =~= Seq::empty());
    if b.len() == 0 {
        assert(a + b =~= a);
        assert(sanitized(a) + sanitized(b) =~= sanitized(a));
    } else {
        law_names_are_made_by_character(a, b.drop_last(), c);
        assert((a + b).drop_last() =~= a + b.drop_last());
        assert((a + b).last() == b.last());
        assert(sanitized(a + b) =~= sanitized(a) + sanitized(b));
    }
}

/// A reference to a tag is read from four texts, each by its own key; a text that is missing
/// or null is empty, and a reference points somewhere once it has an application and a tag.
pub proof fn law_references_are_read_by_key(r: TagRef, e: Entries, key: Seq<char>, s: Seq<char>)
    requires
        r.loaded(Json::Obj(e)),
        at(e, key) == Some(Json::Str(s)),
    ensures
        key == "reference_name"@ ==> r.reference_name@ == s,
        key == "agent_id"@ ==> opt_chars(r.agent_id) == Some(s),
        key == "app_name"@ ==> r.app_name@ == s,
        key == "tag_name"@ ==> r.tag_name@ == s,
        at(e, "agent_id"@) is None || at(e, "agent_id"@) == Some(Json::Null) ==> r.agent_id is None,
        at(e, "app_name"@) is None || at(e, "app_name"@) == Some(Json::Null)
            ==> r.app_name@.len() == 0,
        at(e, "tag_name"@) is None || at(e, "tag_name"@) == Some(Json::Null)
            ==> r.tag_name@.len() == 0,
        r.points() <==> r.app_name@.len() > 0 && r.tag_name@.len() > 0,
{
    assert(written(Json::Str(s)) == Json::Str(s));
}

/// The place of an application is a hidden number with the name that the platform knows, from
/// zero on and a hundred by default; whether it starts open is a hidden flag without a value.
pub proof fn law_applications_have_fixed_elements(
    e: ElementSchema,
    title: Seq<char>,
    name: Seq<char>,
)
    ensures
        ApplicationPosition::is_element(e, title, name) ==> e.name@ == "dv_app_position"@ && e.title@
            == "Position"@ && e.hidden && !e.required_here() && opt_doc(e.default) == Some(
            Json::Int(100),
        ) && (e.kind matches ElementKind::Integer(b) && b.minimum == Some(Number::Unsigned(0))
            && b.maximum is None),
        ApplicationDefaultOpen::is_element(e, title, name) ==> e.name@ == "dv_app_default_open"@
            && e.title@ == "Default Open"@ && e.hidden && !e.required_here() && opt_doc(e.default)
            == Some(Json::Null) && e.kind is Boolean,
{
}

/// A reference to something on the platform is a required text that keeps its title and name
/// and says in its format what it refers to; ids are digits.
pub proof fn law_references_say_what_they_refer_to(
    e: ElementSchema,
    title: Seq<char>,
    name: Seq<char>,
)
    ensures
        ApplicationRef::is_element(e, title, name) ==> opt_chars(e.format) == Some(
            "doover-resource-application"@,
        ) && e.kind == ElementKind::String(StringBounds { length: None, pattern: None }),
        DeviceRef::is_element(e, title, name) ==> opt_chars(e.format) == Some(
            "doover-resource-device"@,
        ) && e.kind.is_string(None, "\\d+"@),
        GroupRef::is_element(e, title, name) ==> opt_chars(e.format) == Some(
            "doover-resource-group"@,
        ) && e.kind.is_string(None, "\\d+"@),
        ApplicationRef::is_element(e, title, name) || DeviceRef::is_element(e, title, name)
            || GroupRef::is_element(e, title, name) ==> e.title@ == title && e.name@ == name
            && !e.hidden && e.required_here(),
        TagRef::is_element(e, title, name) ==> opt_chars(e.format) == Some("doover-tag-reference"@)
            && e.title@ == title && e.name@ == name && !e.hidden,
{
}

/// A reference to a tag has four parts in this order: a hidden name that is the element's own
/// unless set, an agent that may be missing, and an application and a tag that may not.
pub proof fn law_tag_references_have_four_parts(
    e: ElementSchema,
    title: Seq<char>,
    name: Seq<char>,
)
    requires
        TagRef::is_element(e, title, name),
    ensures
        e.kind matches ElementKind::Object { properties, .. } && properties@.len() == 4
            && properties@[0].name@ == "reference_name"@ && properties@[0].hidden && opt_doc(
            properties@[0].default,
        ) == Some(Json::Str(name)) && properties@[1].name@ == "agent_id"@
            && !properties@[1].required_here() && properties@[2].name@ == "app_name"@
            && properties@[2].required_here() && properties@[3].name@ == "tag_name"@
            && properties@[3].required_here(),
{
}

} // verus!
