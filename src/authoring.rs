//! The typed configurations that project authoring produces, their record
//! form, which the loader and the generators read, and the rules that turn a
//! project file and the user's answers into field values.
use vstd::prelude::*;
use crate::config::{
    ConfigDocument, ConfigField, FieldValue, FieldView, CONTAINER_NAME, DOTNET_VERSION,
    ENABLE_HEALTHCHECK, IMAGE_NAME, NODE_VERSION, PORT, PROJECT_DIRECTORY, PROJECT_LOCATION,
    PROJECT_TYPE, ROOT_NAMESPACE, SERVICE_NAME,
};
use crate::text::{
    append_all, chars_of, copy_range, find_sub, find_sub_in, lemma_find_sub_bounds, same_chars,
    string_of, trim, trim_blank, trimmed_slice,
};

verus! {

/// Configuration of a .NET project.
#[derive(Debug, Clone, PartialEq, Eq)]
pub struct DotnetConfig {
    pub project_type: String,
    pub root_namespace: String,
    pub dotnet_version: String,
    pub service_name: String,
    pub image_name: String,
    pub container_name: String,
    pub port: u16,
    pub enable_healthcheck: bool,
    pub project_location: String,
    pub project_directory: String,
}

/// Configuration of an Angular project.
#[derive(Debug, Clone, PartialEq, Eq)]
pub struct AngularConfig {
    pub project_type: String,
    pub node_version: String,
    pub service_name: String,
    pub image_name: String,
    pub container_name: String,
    pub port: u16,
    pub project_location: String,
    pub project_directory: String,
}

/// Configuration of a .NET project in the older layout, which does not
/// state its project type.
#[derive(Debug, Clone, PartialEq, Eq)]
pub struct Config {
    pub root_namespace: String,
    pub dotnet_version: String,
    pub service_name: String,
    pub image_name: String,
    pub container_name: String,
    pub port: u16,
    pub enable_healthcheck: bool,
    pub project_location: String,
    pub project_directory: String,
}

pub open spec fn text_entry(key: &'static str, v: String) -> (Seq<char>, FieldView) {
    (key@, FieldView::Text(v@))
}

fn push_field(fields: &mut Vec<ConfigField>, key: &'static str, value: FieldValue)
    ensures
        final(fields)@.len() == old(fields)@.len() + 1,
        forall|i: int| 0 <= i < old(fields)@.len() ==> final(fields)@[i] == old(fields)@[i],
        final(fields)@.last().key@ == key@,
        final(fields)@.last().value == value,
{
    fields.push(ConfigField { key: String::from_str(key), value });
}

impl DotnetConfig {
    /// The record of this configuration, one field per member, in
    /// declaration order.
    pub fn to_document(&self) -> (r: ConfigDocument)
        ensures
            r@ == seq![
                text_entry(PROJECT_TYPE, self.project_type),
                text_entry(ROOT_NAMESPACE, self.root_namespace),
                text_entry(DOTNET_VERSION, self.dotnet_version),
                text_entry(SERVICE_NAME, self.service_name),
                text_entry(IMAGE_NAME, self.image_name),
                text_entry(CONTAINER_NAME, self.container_name),
                (PORT@, FieldView::Number(self.port as u64)),
                (ENABLE_HEALTHCHECK@, FieldView::Flag(self.enable_healthcheck)),
                text_entry(PROJECT_LOCATION, self.project_location),
                text_entry(PROJECT_DIRECTORY, self.project_directory),
            ],
    {
        let mut f: Vec<ConfigField> = Vec::new();
        push_field(&mut f, PROJECT_TYPE, FieldValue::Text(self.project_type.clone()));
        push_field(&mut f, ROOT_NAMESPACE, FieldValue::Text(self.root_namespace.clone()));
        push_field(&mut f, DOTNET_VERSION, FieldValue::Text(self.dotnet_version.clone()));
        push_field(&mut f, SERVICE_NAME, FieldValue::Text(self.service_name.clone()));
        push_field(&mut f, IMAGE_NAME, FieldValue::Text(self.image_name.clone()));
        push_field(&mut f, CONTAINER_NAME, FieldValue::Text(self.container_name.clone()));
        push_field(&mut f, PORT, FieldValue::Number(self.port as u64));
        push_field(&mut f, ENABLE_HEALTHCHECK, FieldValue::Flag(self.enable_healthcheck));
        push_field(&mut f, PROJECT_LOCATION, FieldValue::Text(self.project_location.clone()));
        push_field(&mut f, PROJECT_DIRECTORY, FieldValue::Text(self.project_directory.clone()));
        let r = ConfigDocument { fields: f };
        assert(r@ =~= seq![
            text_entry(PROJECT_TYPE, self.project_type),
            text_entry(ROOT_NAMESPACE, self.root_namespace),
            text_entry(DOTNET_VERSION, self.dotnet_version),
            text_entry(SERVICE_NAME, self.service_name),
            text_entry(IMAGE_NAME, self.image_name),
            text_entry(CONTAINER_NAME, self.container_name),
            (PORT@, FieldView::Number(self.port as u64)),
            (ENABLE_HEALTHCHECK@, FieldView::Flag(self.enable_healthcheck)),
            text_entry(PROJECT_LOCATION, self.project_location),
            text_entry(PROJECT_DIRECTORY, self.project_directory),
        ]);
        r
    }
}

impl AngularConfig {
    /// The record of this configuration, one field per member, in
    /// declaration order.
    pub fn to_document(&self) -> (r: ConfigDocument)
        ensures
            r@ == seq![
                text_entry(PROJECT_TYPE, self.project_type),
                text_entry(NODE_VERSION, self.node_version),
                text_entry(SERVICE_NAME, self.service_name),
                text_entry(IMAGE_NAME, self.image_name),
                text_entry(CONTAINER_NAME, self.container_name),
                (PORT@, FieldView::Number(self.port as u64)),
                text_entry(PROJECT_LOCATION, self.project_location),
                text_entry(PROJECT_DIRECTORY, self.project_directory),
            ],
    {
        let mut f: Vec<ConfigField> = Vec::new();
        push_field(&mut f, PROJECT_TYPE, FieldValue::Text(self.project_type.clone()));
        push_field(&mut f, NODE_VERSION, FieldValue::Text(self.node_version.clone()));
        push_field(&mut f, SERVICE_NAME, FieldValue::Text(self.service_name.clone()));
        push_field(&mut f, IMAGE_NAME, FieldValue::Text(self.image_name.clone()));
        push_field(&mut f, CONTAINER_NAME, FieldValue::Text(self.container_name.clone()));
        push_field(&mut f, PORT, FieldValue::Number(self.port as u64));
        push_field(&mut f, PROJECT_LOCATION, FieldValue::Text(self.project_location.clone()));
        push_field(&mut f, PROJECT_DIRECTORY, FieldValue::Text(self.project_directory.clone()));
        let r = ConfigDocument { fields: f };
        assert(r@ =~= seq![
            text_entry(PROJECT_TYPE, self.project_type),
            text_entry(NODE_VERSION, self.node_version),
            text_entry(SERVICE_NAME, self.service_name),
            text_entry(IMAGE_NAME, self.image_name),
            text_entry(CONTAINER_NAME, self.container_name),
            (PORT@, FieldView::Number(self.port as u64)),
            text_entry(PROJECT_LOCATION, self.project_location),
            text_entry(PROJECT_DIRECTORY, self.project_directory),
        ]);
        r
    }
}

impl Config {
    /// The same configuration in the current layout, which states the .NET
    /// project type.
    pub fn to_dotnet(&self) -> (r: DotnetConfig)
        ensures
            r.project_type@ == crate::config::DOTNET@,
            r.root_namespace@ == self.root_namespace@,
            r.dotnet_version@ == self.dotnet_version@,
            r.service_name@ == self.service_name@,
            r.image_name@ == self.image_name@,
            r.container_name@ == self.container_name@,
            r.port == self.port,
            r.enable_healthcheck == self.enable_healthcheck,
            r.project_location@ == self.project_location@,
            r.project_directory@ == self.project_directory@,
    {
        DotnetConfig {
            project_type: String::from_str(crate::config::DOTNET),
            root_namespace: self.root_namespace.clone(),
            dotnet_version: self.dotnet_version.clone(),
            service_name: self.service_name.clone(),
            image_name: self.image_name.clone(),
            container_name: self.container_name.clone(),
            port: self.port,
            enable_healthcheck: self.enable_healthcheck,
            project_location: self.project_location.clone(),
            project_directory: self.project_directory.clone(),
        }
    }
}

pub const ROOT_NAMESPACE_OPEN: &'static str = "<RootNamespace>";
pub const ROOT_NAMESPACE_CLOSE: &'static str = "</RootNamespace>";
pub const TARGET_FRAMEWORK_OPEN: &'static str = "<TargetFramework>net";
pub const TARGET_FRAMEWORK_CLOSE: &'static str = "</TargetFramework>";
pub const DEFAULT_PROJECT_LOCATION: &'static str = "/etc/www";
pub const YES: &'static str = "yes";
pub const NO: &'static str = "no";

/// The text between the first `open` of `t` and the first `close` after
/// it, without surrounding whitespace.
pub open spec fn between_tags(t: Seq<char>, open: Seq<char>, close: Seq<char>) -> Option<Seq<char>> {
    match find_sub(t, open, 0) {
        None => None,
        Some(s) => match find_sub(t, close, s + open.len()) {
            None => None,
            Some(e) => Some(trim_blank(t.subrange(s + open.len(), e))),
        },
    }
}

/// The text between the first `open` of `text` and the first `close` after
/// it, without surrounding whitespace.
pub fn text_between(text: &str, open: &str, close: &str) -> (r: Option<String>)
    ensures
        match r {
            Some(v) => between_tags(text@, open@, close@) == Some(v@),
            None => between_tags(text@, open@, close@) is None,
        },
{
    let t = chars_of(text);
    let o = chars_of(open);
    match find_sub_in(&t, &o, 0) {
        None => None,
        Some(s) => {
            proof {
                lemma_find_sub_bounds(t@, o@, 0);
            }
            let ol = o.len();
            assert(s + ol <= t.len());
            let a = s + ol;
            match find_sub_in(&t, &chars_of(close), a) {
                None => None,
                Some(e) => {
                    proof {
                        lemma_find_sub_bounds(t@, close@, a as int);
                    }
                    Some(string_of(&trimmed_slice(&t, a, e)))
                },
            }
        },
    }
}

/// The root namespace that a .NET project file declares.
pub fn root_namespace_of(csproj: &str) -> (r: Option<String>)
    ensures
        match r {
            Some(v) => between_tags(csproj@, ROOT_NAMESPACE_OPEN@, ROOT_NAMESPACE_CLOSE@) == Some(v@),
            None => between_tags(csproj@, ROOT_NAMESPACE_OPEN@, ROOT_NAMESPACE_CLOSE@) is None,
        },
{
    text_between(csproj, ROOT_NAMESPACE_OPEN, ROOT_NAMESPACE_CLOSE)
}

/// The .NET version that a project file targets: what follows `net` in its
/// target framework, so `9.0` for `net9.0`.
pub fn dotnet_version_of(csproj: &str) -> (r: Option<String>)
    ensures
        match r {
            Some(v) => between_tags(csproj@, TARGET_FRAMEWORK_OPEN@, TARGET_FRAMEWORK_CLOSE@) == Some(
                v@,
            ),
            None => between_tags(csproj@, TARGET_FRAMEWORK_OPEN@, TARGET_FRAMEWORK_CLOSE@) is None,
        },
{
    text_between(csproj, TARGET_FRAMEWORK_OPEN, TARGET_FRAMEWORK_CLOSE)
}

/// Relies on `str::to_lowercase`: the result depends on the characters alone.
pub uninterp spec fn lower_of(s: Seq<char>) -> Seq<char>;

/// Relies on `str::to_lowercase`; an empty string stays empty.
#[verifier::external_body]
fn lowercase(s: &str) -> (r: String)
    ensures
        r@ == lower_of(s@),
        s@.len() == 0 ==> r@.len() == 0,
{
    s.to_lowercase()
}

/// `s` with every `_` turned into `-`.
pub open spec fn hyphenate(s: Seq<char>) -> Seq<char> {
    s.map_values(|c: char| if c == '_' { '-' } else { c })
}

/// The name that service, image, container and directory default to: the
/// root namespace with `_` turned into `-`, in lower case.
pub fn default_name(root_namespace: &str) -> (r: String)
    ensures
        r@ == lower_of(hyphenate(root_namespace@)),
{
    let cs = chars_of(root_namespace);
    let mut out: Vec<char> = Vec::new();
    let mut i: usize = 0;
    while i < cs.len()
        invariant
            i <= cs.len(),
            cs@ == root_namespace@,
            out@ == hyphenate(cs@.take(i as int)),
        decreases cs.len() - i,
    {
        let c = cs[i];
        out.push(if c == '_' { '-' } else { c });
        i = i + 1;
        assert(out@ =~= hyphenate(cs@.take(i as int)));
    }
    assert(cs@.take(cs.len() as int) =~= cs@);
    lowercase(string_of(&out).as_str())
}

/// The answer to a prompt: the input without surrounding whitespace, or
/// `default` where that is empty.
pub fn answer_or_default(input: &str, default: &str) -> (r: String)
    ensures
        trim_blank(input@).len() == 0 ==> r@ == default@,
        trim_blank(input@).len() > 0 ==> r@ == trim_blank(input@),
{
    let t = trim(input);
    if t.len() == 0 {
        String::from_str(default)
    } else {
        string_of(&t)
    }
}

/// Value of the decimal digits `s`.
pub open spec fn digits_value(s: Seq<char>) -> nat
    decreases s.len(),
{
    if s.len() == 0 {
        0
    } else {
        digits_value(s.drop_last()) * 10 + (s.last() as nat - '0' as nat) as nat
    }
}

pub open spec fn is_digit(c: char) -> bool {
    '0' <= c <= '9'
}

/// The decimal part of a port answer: its characters after an optional `+`.
pub open spec fn unsigned_part(s: Seq<char>) -> Seq<char> {
    if s.len() > 0 && s[0] == '+' {
        s.drop_first()
    } else {
        s
    }
}

/// The port that `s` denotes: an optional `+` and at least one decimal digit,
/// of value at most 65535.
pub open spec fn port_value(s: Seq<char>) -> Option<u16> {
    let d = unsigned_part(s);
    if d.len() > 0 && (forall|i: int| 0 <= i < d.len() ==> is_digit(#[trigger] d[i]))
        && digits_value(d) <= 65535 {
        Some(digits_value(d) as u16)
    } else {
        None
    }
}

proof fn lemma_digits_value_grows(d: Seq<char>, i: int)
    requires
        0 <= i <= d.len(),
        forall|k: int| 0 <= k < d.len() ==> is_digit(#[trigger] d[k]),
    ensures
        digits_value(d.take(i)) <= digits_value(d),
    decreases d.len() - i,
{
    if i < d.len() {
        lemma_digits_value_grows(d, i + 1);
        assert(d.take(i + 1).drop_last() =~= d.take(i));
    } else {
        assert(d.take(i) =~= d);
    }
}

/// The port that a prompt answer gives, once surrounding whitespace is
/// trimmed.
pub fn parse_port(input: &str) -> (r: Option<u16>)
    ensures
        r == port_value(trim_blank(input@)),
{
    let t = trim(input);
    let start: usize = if t.len() > 0 && t[0] == '+' { 1 } else { 0 };
    let d = copy_range(&t, start, t.len());
    assert(d@ =~= unsigned_part(t@));
    if d.len() == 0 {
        return None;
    }
    let mut v: u32 = 0;
    let mut i: usize = 0;
    while i < d.len()
        invariant
            i <= d.len(),
            d@ == unsigned_part(t@),
            t@ == trim_blank(input@),
            v as nat == digits_value(d@.take(i as int)),
            v <= 65535,
            forall|k: int| 0 <= k < i ==> is_digit(#[trigger] d@[k]),
        decreases d.len() - i,
    {
        let c = d[i];
        if !('0' <= c && c <= '9') {
            return None;
        }
        let digit = (c as u32) - ('0' as u32);
        assert(d@.take(i + 1).drop_last() =~= d@.take(i as int));
        let next = v * 10 + digit;
        i = i + 1;
        if next > 65535 {
            proof {
                assert forall|k: int| 0 <= k < i implies is_digit(#[trigger] d@[k]) by {}
                if exists|k: int| i <= k < d.len() && !is_digit(#[trigger] d@[k]) {
                } else {
                    lemma_digits_value_grows(d@, i as int);
                }
            }
            return None;
        }
        v = next;
    }
    assert(d@.take(d.len() as int) =~= d@);
    Some(v as u16)
}

/// The yes/no answer that a lower-cased reply gives: empty means no.
pub open spec fn yes_no_value(lowered: Seq<char>) -> Option<bool> {
    if lowered.len() == 0 || lowered == NO@ {
        Some(false)
    } else if lowered == YES@ {
        Some(true)
    } else {
        None
    }
}

/// The yes/no answer that an already lower-cased, trimmed reply gives.
pub fn yes_no_of_lowered(lowered: &str) -> (r: Option<bool>)
    ensures
        r == yes_no_value(lowered@),
{
    let l = chars_of(lowered);
    if l.len() == 0 || same_chars(&l, &chars_of(NO)) {
        Some(false)
    } else if same_chars(&l, &chars_of(YES)) {
        Some(true)
    } else {
        None
    }
}

/// The yes/no answer to a prompt: the reply is trimmed and lower-cased; an
/// empty reply means no; anything but `yes` or `no` gives `None`.
pub fn parse_yes_no(input: &str) -> (r: Option<bool>)
    ensures
        r == yes_no_value(lower_of(trim_blank(input@))),
{
    let t = string_of(&trim(input));
    let lowered = lowercase(t.as_str());
    yes_no_of_lowered(lowered.as_str())
}

} // verus!
