//! The project configuration: a flat record of named fields, read from a JSON
//! object, and the checks that make it usable by the generators.
use vstd::prelude::*;
use crate::template::{lookup, lookup_from};
use crate::text::{blank_char, chars_of, is_blank_char, same_chars};

verus! {

pub const PROJECT_TYPE: &'static str = "project_type";
pub const SERVICE_NAME: &'static str = "service_name";
pub const IMAGE_NAME: &'static str = "image_name";
pub const CONTAINER_NAME: &'static str = "container_name";
pub const PORT: &'static str = "port";
pub const PROJECT_LOCATION: &'static str = "project_location";
pub const PROJECT_DIRECTORY: &'static str = "project_directory";
pub const ROOT_NAMESPACE: &'static str = "root_namespace";
pub const DOTNET_VERSION: &'static str = "dotnet_version";
pub const ENABLE_HEALTHCHECK: &'static str = "enable_healthcheck";
pub const NODE_VERSION: &'static str = "node_version";

pub const DOTNET: &'static str = "dotnet";
pub const ANGULAR: &'static str = "angular";

/// The runtime stack of a project, which selects its generators.
#[derive(Debug, Clone, Copy, PartialEq, Eq, Structural)]
pub enum ProjectType {
    Dotnet,
    Angular,
}

/// A field's value as the configuration document holds it.
#[derive(Debug, Clone, PartialEq, Eq)]
pub enum FieldValue {
    Text(String),
    /// A non-negative integer.
    Number(u64),
    Flag(bool),
    /// Anything else: null, a negative or fractional number, an array, an object.
    Other,
}

/// What a field's value is, as plain values.
pub enum FieldView {
    Text(Seq<char>),
    Number(u64),
    Flag(bool),
    Other,
}

impl View for FieldValue {
    type V = FieldView;

    open spec fn view(&self) -> FieldView {
        match self {
            FieldValue::Text(s) => FieldView::Text(s@),
            FieldValue::Number(n) => FieldView::Number(*n),
            FieldValue::Flag(b) => FieldView::Flag(*b),
            FieldValue::Other => FieldView::Other,
        }
    }
}

#[derive(Debug, Clone, PartialEq, Eq)]
pub struct ConfigField {
    pub key: String,
    pub value: FieldValue,
}

/// The configuration record: its fields in document order. Where a key
/// occurs twice, the first occurrence counts.
#[derive(Debug, Clone, PartialEq, Eq)]
pub struct ConfigDocument {
    pub fields: Vec<ConfigField>,
}

impl View for ConfigDocument {
    type V = Seq<(Seq<char>, FieldView)>;

    open spec fn view(&self) -> Seq<(Seq<char>, FieldView)> {
        fields_view(self.fields@)
    }
}

pub open spec fn fields_view(fs: Seq<ConfigField>) -> Seq<(Seq<char>, FieldView)> {
    Seq::new(fs.len(), |i: int| (fs[i].key@, fs[i].value@))
}

/// A copy of `f`.
pub fn copy_field(f: &ConfigField) -> (r: ConfigField)
    ensures
        r.key@ == f.key@,
        r.value@ == f.value@,
{
    let value = match &f.value {
        FieldValue::Text(s) => FieldValue::Text(s.clone()),
        FieldValue::Number(n) => FieldValue::Number(*n),
        FieldValue::Flag(b) => FieldValue::Flag(*b),
        FieldValue::Other => FieldValue::Other,
    };
    ConfigField { key: f.key.clone(), value }
}

/// A loaded configuration: the record and the project type it declares.
#[derive(Debug, Clone, PartialEq, Eq)]
pub struct ProjectConfig {
    pub project_type: ProjectType,
    pub record: ConfigDocument,
}

#[derive(Debug, Clone, PartialEq, Eq)]
pub enum ConfigError {
    /// There is no configuration file.
    NotFound,
    /// The file is not a JSON object, its project type is unknown, or its
    /// project location ends with a path separator.
    InvalidFormat,
    /// A required field is absent, blank, or of the wrong type.
    MissingField(String),
}

/// The type a required field must have.
#[derive(Debug, Clone, Copy, PartialEq, Eq, Structural)]
pub enum FieldKind {
    /// A string that is not blank.
    Text,
    /// A non-negative integer that fits in 16 bits.
    Port,
    /// A boolean.
    Flag,
}

/// A field that a consumer of the record requires, and its type.
#[derive(Debug, Clone, Copy, PartialEq, Eq)]
pub struct FieldReq {
    pub name: &'static str,
    pub kind: FieldKind,
}

pub open spec fn reqs_view(rs: Seq<FieldReq>) -> Seq<(Seq<char>, FieldKind)> {
    Seq::new(rs.len(), |i: int| (rs[i].name@, rs[i].kind))
}

/// `s` is empty once surrounding whitespace is trimmed.
pub open spec fn is_blank(s: Seq<char>) -> bool {
    forall|i: int| 0 <= i < s.len() ==> is_blank_char(#[trigger] s[i])
}

/// The non-blank string stored under `key`.
pub open spec fn text_of(doc: Seq<(Seq<char>, FieldView)>, key: Seq<char>) -> Option<Seq<char>> {
    match lookup(doc, key) {
        Some(FieldView::Text(s)) => if is_blank(s) {
            None
        } else {
            Some(s)
        },
        _ => None,
    }
}

/// The port number stored under `key`.
pub open spec fn port_of(doc: Seq<(Seq<char>, FieldView)>, key: Seq<char>) -> Option<u16> {
    match lookup(doc, key) {
        Some(FieldView::Number(n)) => if n <= 65535 {
            Some(n as u16)
        } else {
            None
        },
        _ => None,
    }
}

/// The boolean stored under `key`.
pub open spec fn flag_of(doc: Seq<(Seq<char>, FieldView)>, key: Seq<char>) -> Option<bool> {
    match lookup(doc, key) {
        Some(FieldView::Flag(b)) => Some(b),
        _ => None,
    }
}

/// Field `key` is there with type `kind`.
pub open spec fn has_field(doc: Seq<(Seq<char>, FieldView)>, key: Seq<char>, kind: FieldKind) -> bool {
    match kind {
        FieldKind::Text => text_of(doc, key) is Some,
        FieldKind::Port => port_of(doc, key) is Some,
        FieldKind::Flag => flag_of(doc, key) is Some,
    }
}

/// The first of `reqs[from..]` that `doc` lacks.
pub open spec fn first_missing_from(
    doc: Seq<(Seq<char>, FieldView)>,
    reqs: Seq<(Seq<char>, FieldKind)>,
    from: int,
) -> Option<Seq<char>>
    decreases reqs.len() - from,
{
    if from < 0 || from >= reqs.len() {
        None
    } else if !has_field(doc, reqs[from].0, reqs[from].1) {
        Some(reqs[from].0)
    } else {
        first_missing_from(doc, reqs, from + 1)
    }
}

/// The first of `reqs` that `doc` lacks.
pub open spec fn first_missing(
    doc: Seq<(Seq<char>, FieldView)>,
    reqs: Seq<(Seq<char>, FieldKind)>,
) -> Option<Seq<char>> {
    first_missing_from(doc, reqs, 0)
}

/// The fields every project needs, then those of its stack, in order.
pub open spec fn family_fields(family: ProjectType) -> Seq<(Seq<char>, FieldKind)> {
    let common = seq![
        (SERVICE_NAME@, FieldKind::Text),
        (IMAGE_NAME@, FieldKind::Text),
        (CONTAINER_NAME@, FieldKind::Text),
        (PORT@, FieldKind::Port),
        (PROJECT_LOCATION@, FieldKind::Text),
        (PROJECT_DIRECTORY@, FieldKind::Text),
    ];
    match family {
        ProjectType::Dotnet => common + seq![
            (ROOT_NAMESPACE@, FieldKind::Text),
            (DOTNET_VERSION@, FieldKind::Text),
            (ENABLE_HEALTHCHECK@, FieldKind::Flag),
        ],
        ProjectType::Angular => common + seq![(NODE_VERSION@, FieldKind::Text)],
    }
}

/// The project type that `doc` declares, if it names a known one.
pub open spec fn declared_type(doc: Seq<(Seq<char>, FieldView)>) -> Option<ProjectType> {
    match lookup(doc, PROJECT_TYPE@) {
        Some(FieldView::Text(s)) => if s == DOTNET@ {
            Some(ProjectType::Dotnet)
        } else if s == ANGULAR@ {
            Some(ProjectType::Angular)
        } else {
            None
        },
        _ => None,
    }
}

/// What checking `doc` gives: the project type, or the error.
pub enum CheckOutcome {
    Valid(ProjectType),
    Invalid,
    Missing(Seq<char>),
}

pub open spec fn check_spec(doc: Seq<(Seq<char>, FieldView)>) -> CheckOutcome {
    match lookup(doc, PROJECT_TYPE@) {
        Some(FieldView::Text(_)) => match declared_type(doc) {
            None => CheckOutcome::Invalid,
            Some(family) => match first_missing(doc, family_fields(family)) {
                Some(f) => CheckOutcome::Missing(f),
                None => if text_of(doc, PROJECT_LOCATION@).unwrap().last() == '/' {
                    CheckOutcome::Invalid
                } else {
                    CheckOutcome::Valid(family)
                },
            },
        },
        _ => CheckOutcome::Missing(PROJECT_TYPE@),
    }
}

pub open spec fn outcome_of(r: Result<ProjectType, ConfigError>) -> CheckOutcome {
    match r {
        Ok(t) => CheckOutcome::Valid(t),
        Err(ConfigError::MissingField(f)) => CheckOutcome::Missing(f@),
        Err(_) => CheckOutcome::Invalid,
    }
}

/// Where none of `reqs[from..]` is missing, `doc` holds each of them.
pub proof fn lemma_none_missing(
    doc: Seq<(Seq<char>, FieldView)>,
    reqs: Seq<(Seq<char>, FieldKind)>,
    from: int,
)
    requires
        0 <= from,
        first_missing_from(doc, reqs, from) is None,
    ensures
        forall|k: int| from <= k < reqs.len() ==> has_field(doc, #[trigger] reqs[k].0, reqs[k].1),
    decreases reqs.len() - from,
{
    if from < reqs.len() {
        lemma_none_missing(doc, reqs, from + 1);
    }
}

/// Relies on `serde_json::from_str`, asked for a JSON object: the members of
/// the object, each with its key and its value where that is a string, a
/// boolean or a non-negative integer that fits in 64 bits. Parsing depends on
/// the text alone.
pub uninterp spec fn json_object_fields(text: Seq<char>) -> Option<Seq<(Seq<char>, FieldView)>>;

/// Relies on `serde_json::from_str` into a `serde_json::Map`, and on
/// `serde_json::Number::as_u64` for numbers: `None` where `text` is not a
/// JSON object.
#[verifier::external_body]
fn parse_json_object(text: &str) -> (r: Option<ConfigDocument>)
    ensures
        match r {
            Some(d) => json_object_fields(text@) == Some(d@),
            None => json_object_fields(text@) is None,
        },
{
    match serde_json::from_str::<serde_json::Map<String, serde_json::Value>>(text) {
        Ok(members) => Some(ConfigDocument {
            fields: members.into_iter().map(|(key, v)| ConfigField {
                key,
                value: match v {
                    serde_json::Value::String(s) => FieldValue::Text(s),
                    serde_json::Value::Bool(b) => FieldValue::Flag(b),
                    serde_json::Value::Number(n) => n.as_u64().map_or(FieldValue::Other, FieldValue::Number),
                    _ => FieldValue::Other,
                },
            }).collect(),
        }),
        Err(_) => None,
    }
}

/// Index of the first field of `doc` whose key is `key`.
pub fn field_index(doc: &ConfigDocument, key: &str) -> (r: Option<usize>)
    ensures
        match r {
            Some(i) => i < doc.fields.len() && lookup(doc@, key@) == Some(doc.fields@[i as int].value@),
            None => lookup(doc@, key@) is None,
        },
{
    let wanted = chars_of(key);
    let mut i: usize = 0;
    while i < doc.fields.len()
        invariant
            i <= doc.fields.len(),
            wanted@ == key@,
            lookup(doc@, key@) == lookup_from(doc@, key@, i as int),
        decreases doc.fields.len() - i,
    {
        let k = chars_of(doc.fields[i].key.as_str());
        if same_chars(&k, &wanted) {
            return Some(i);
        }
        i = i + 1;
    }
    None
}

/// Whether every character of `s` is blank.
pub fn blank(s: &str) -> (r: bool)
    ensures
        r == is_blank(s@),
{
    let cs = chars_of(s);
    let mut i: usize = 0;
    while i < cs.len()
        invariant
            i <= cs.len(),
            cs@ == s@,
            forall|k: int| 0 <= k < i ==> is_blank_char(#[trigger] cs@[k]),
        decreases cs.len() - i,
    {
        if !blank_char(cs[i]) {
            return false;
        }
        i = i + 1;
    }
    true
}

/// The non-blank string stored under `key`.
pub fn text_field(doc: &ConfigDocument, key: &str) -> (r: Option<String>)
    ensures
        match r {
            Some(s) => text_of(doc@, key@) == Some(s@),
            None => text_of(doc@, key@) is None,
        },
{
    match field_index(doc, key) {
        Some(i) => match &doc.fields[i].value {
            FieldValue::Text(s) => if blank(s.as_str()) {
                None
            } else {
                Some(s.clone())
            },
            _ => None,
        },
        None => None,
    }
}

/// The port number stored under `key`.
pub fn port_field(doc: &ConfigDocument, key: &str) -> (r: Option<u16>)
    ensures
        r == port_of(doc@, key@),
{
    match field_index(doc, key) {
        Some(i) => match &doc.fields[i].value {
            FieldValue::Number(n) => if *n <= 65535 {
                Some(*n as u16)
            } else {
                None
            },
            _ => None,
        },
        None => None,
    }
}

/// The boolean stored under `key`.
pub fn flag_field(doc: &ConfigDocument, key: &str) -> (r: Option<bool>)
    ensures
        r == flag_of(doc@, key@),
{
    match field_index(doc, key) {
        Some(i) => match &doc.fields[i].value {
            FieldValue::Flag(b) => Some(*b),
            _ => None,
        },
        None => None,
    }
}

/// Whether `doc` holds field `key` with type `kind`.
pub fn holds_field(doc: &ConfigDocument, key: &str, kind: FieldKind) -> (r: bool)
    ensures
        r == has_field(doc@, key@, kind),
{
    match kind {
        FieldKind::Text => text_field(doc, key).is_some(),
        FieldKind::Port => port_field(doc, key).is_some(),
        FieldKind::Flag => flag_field(doc, key).is_some(),
    }
}

/// The first of `reqs` that `doc` lacks, or `None` when it holds them all.
pub fn first_missing_field(doc: &ConfigDocument, reqs: &Vec<FieldReq>) -> (r: Option<&'static str>)
    ensures
        match r {
            Some(f) => first_missing(doc@, reqs_view(reqs@)) == Some(f@),
            None => first_missing(doc@, reqs_view(reqs@)) is None,
        },
{
    let ghost rv = reqs_view(reqs@);
    let mut i: usize = 0;
    while i < reqs.len()
        invariant
            i <= reqs.len(),
            rv == reqs_view(reqs@),
            first_missing(doc@, rv) == first_missing_from(doc@, rv, i as int),
        decreases reqs.len() - i,
    {
        let req = reqs[i];
        if !holds_field(doc, req.name, req.kind) {
            return Some(req.name);
        }
        i = i + 1;
    }
    None
}

pub(crate) fn push_req(v: &mut Vec<FieldReq>, name: &'static str, kind: FieldKind)
    ensures
        reqs_view(final(v)@) == reqs_view(old(v)@).push((name@, kind)),
{
    v.push(FieldReq { name, kind });
    assert(reqs_view(v@) =~= reqs_view(old(v)@).push((name@, kind)));
}

/// The fields that a configuration of `family` must hold, in order.
pub fn family_requirements(family: ProjectType) -> (r: Vec<FieldReq>)
    ensures
        reqs_view(r@) == family_fields(family),
{
    let mut v: Vec<FieldReq> = Vec::new();
    push_req(&mut v, SERVICE_NAME, FieldKind::Text);
    push_req(&mut v, IMAGE_NAME, FieldKind::Text);
    push_req(&mut v, CONTAINER_NAME, FieldKind::Text);
    push_req(&mut v, PORT, FieldKind::Port);
    push_req(&mut v, PROJECT_LOCATION, FieldKind::Text);
    push_req(&mut v, PROJECT_DIRECTORY, FieldKind::Text);
    match family {
        ProjectType::Dotnet => {
            push_req(&mut v, ROOT_NAMESPACE, FieldKind::Text);
            push_req(&mut v, DOTNET_VERSION, FieldKind::Text);
            push_req(&mut v, ENABLE_HEALTHCHECK, FieldKind::Flag);
        },
        ProjectType::Angular => {
            push_req(&mut v, NODE_VERSION, FieldKind::Text);
        },
    }
    assert(reqs_view(v@) =~= family_fields(family));
    v
}

/// Checks `doc` as a configuration: it must declare a known project type,
/// hold every field of that type's list with the right type, and give a
/// project location without a trailing `/`.
pub fn check_config(doc: &ConfigDocument) -> (r: Result<ProjectType, ConfigError>)
    ensures
        outcome_of(r) == check_spec(doc@),
{
    let family = match field_index(doc, PROJECT_TYPE) {
        Some(i) => match &doc.fields[i].value {
            FieldValue::Text(s) => {
                let name = chars_of(s.as_str());
                if same_chars(&name, &chars_of(DOTNET)) {
                    ProjectType::Dotnet
                } else if same_chars(&name, &chars_of(ANGULAR)) {
                    ProjectType::Angular
                } else {
                    return Err(ConfigError::InvalidFormat);
                }
            },
            _ => {
                return Err(ConfigError::MissingField(String::from_str(PROJECT_TYPE)));
            },
        },
        None => {
            return Err(ConfigError::MissingField(String::from_str(PROJECT_TYPE)));
        },
    };
    let reqs = family_requirements(family);
    match first_missing_field(doc, &reqs) {
        Some(f) => Err(ConfigError::MissingField(String::from_str(f))),
        None => {
            proof {
                lemma_none_missing(doc@, family_fields(family), 0);
                assert(family_fields(family)[4] == (PROJECT_LOCATION@, FieldKind::Text));
                assert(has_field(doc@, family_fields(family)[4].0, family_fields(family)[4].1));
            }
            let location = chars_of(text_field(doc, PROJECT_LOCATION).unwrap().as_str());
            if location.len() > 0 && location[location.len() - 1] == '/' {
                Err(ConfigError::InvalidFormat)
            } else {
                Ok(family)
            }
        },
    }
}

/// Reads a configuration from its JSON text.
pub fn parse_config(text: &str) -> (r: Result<ProjectConfig, ConfigError>)
    ensures
        match json_object_fields(text@) {
            None => r == Err::<ProjectConfig, ConfigError>(ConfigError::InvalidFormat),
            Some(doc) => match r {
                Ok(c) => c.record@ == doc && check_spec(doc) == CheckOutcome::Valid(c.project_type),
                Err(e) => outcome_of(Err(e)) == check_spec(doc),
            },
        },
{
    match parse_json_object(text) {
        None => Err(ConfigError::InvalidFormat),
        Some(record) => match check_config(&record) {
            Ok(project_type) => Ok(ProjectConfig { project_type, record }),
            Err(e) => Err(e),
        },
    }
}

/// Loads a configuration from the contents of its file, `None` where there
/// is no file.
pub fn load_config(contents: Option<&str>) -> (r: Result<ProjectConfig, ConfigError>)
    ensures
        contents is None ==> r == Err::<ProjectConfig, ConfigError>(ConfigError::NotFound),
        contents matches Some(text) ==> match json_object_fields(text@) {
            None => r == Err::<ProjectConfig, ConfigError>(ConfigError::InvalidFormat),
            Some(doc) => match r {
                Ok(c) => c.record@ == doc && check_spec(doc) == CheckOutcome::Valid(c.project_type),
                Err(e) => outcome_of(Err(e)) == check_spec(doc),
            },
        },
{
    match contents {
        None => Err(ConfigError::NotFound),
        Some(text) => parse_config(text),
    }
}

pub const DEFAULT_SERVICE_NAME: &'static str = "default_service";
pub const DEFAULT_IMAGE_NAME: &'static str = "default_image";
pub const DEFAULT_CONTAINER_NAME: &'static str = "default_container";
pub const DEFAULT_PORT: u64 = 5000;

/// The fields that the relaxed mode fills in, and the value each gets.
pub open spec fn legacy_defaults() -> Seq<(Seq<char>, FieldKind, FieldView)> {
    seq![
        (SERVICE_NAME@, FieldKind::Text, FieldView::Text(DEFAULT_SERVICE_NAME@)),
        (IMAGE_NAME@, FieldKind::Text, FieldView::Text(DEFAULT_IMAGE_NAME@)),
        (CONTAINER_NAME@, FieldKind::Text, FieldView::Text(DEFAULT_CONTAINER_NAME@)),
        (PORT@, FieldKind::Port, FieldView::Number(DEFAULT_PORT)),
        (ENABLE_HEALTHCHECK@, FieldKind::Flag, FieldView::Flag(false)),
    ]
}

/// The entries that relaxed mode puts in front of `doc`: a default for each
/// of `defs[..n]` that `doc` lacks.
pub open spec fn default_entries(
    doc: Seq<(Seq<char>, FieldView)>,
    defs: Seq<(Seq<char>, FieldKind, FieldView)>,
    n: int,
) -> Seq<(Seq<char>, FieldView)>
    decreases n,
{
    if n <= 0 {
        seq![]
    } else {
        let prev = default_entries(doc, defs, n - 1);
        let d = defs[n - 1];
        if has_field(doc, d.0, d.1) {
            prev
        } else {
            prev.push((d.0, d.2))
        }
    }
}

proof fn lemma_lookup_concat<V>(a: Seq<(Seq<char>, V)>, b: Seq<(Seq<char>, V)>, key: Seq<char>, i: int)
    requires
        0 <= i <= a.len(),
    ensures
        lookup_from(a + b, key, i) == match lookup_from(a, key, i) {
            Some(v) => Some(v),
            None => lookup(b, key),
        },
    decreases a.len() + b.len() - i,
{
    if i < a.len() {
        lemma_lookup_concat(a, b, key, i + 1);
        assert((a + b)[i] == a[i]);
    } else {
        lemma_lookup_shift(a, b, key, 0);
    }
}

proof fn lemma_lookup_shift<V>(a: Seq<(Seq<char>, V)>, b: Seq<(Seq<char>, V)>, key: Seq<char>, j: int)
    requires
        0 <= j <= b.len(),
    ensures
        lookup_from(a + b, key, a.len() + j) == lookup_from(b, key, j),
    decreases b.len() - j,
{
    if j < b.len() {
        lemma_lookup_shift(a, b, key, j + 1);
        assert((a + b)[a.len() + j] == b[j]);
    }
}

proof fn lemma_default_entries(
    doc: Seq<(Seq<char>, FieldView)>,
    defs: Seq<(Seq<char>, FieldKind, FieldView)>,
    n: int,
    key: Seq<char>,
)
    requires
        0 <= n <= defs.len(),
        forall|a: int, b: int| 0 <= a < b < defs.len() ==> #[trigger] defs[a].0 != #[trigger] defs[b].0,
    ensures
        forall|k: int|
            0 <= k < n && #[trigger] defs[k].0 == key ==> lookup(default_entries(doc, defs, n), key)
                == if has_field(doc, defs[k].0, defs[k].1) {
                None
            } else {
                Some(defs[k].2)
            },
        (forall|k: int| 0 <= k < n ==> #[trigger] defs[k].0 != key) ==> lookup(
            default_entries(doc, defs, n),
            key,
        ) is None,
    decreases n,
{
    if n > 0 {
        lemma_default_entries(doc, defs, n - 1, key);
        let prev = default_entries(doc, defs, n - 1);
        let d = defs[n - 1];
        if !has_field(doc, d.0, d.1) {
            lemma_lookup_concat(prev, seq![(d.0, d.2)], key, 0);
            assert(prev.push((d.0, d.2)) =~= prev + seq![(d.0, d.2)]);
            assert(lookup_from(seq![(d.0, d.2)], key, 1) is None);
        }
        if d.0 == key {
            assert forall|k: int| 0 <= k < n - 1 implies #[trigger] defs[k].0 != key by {
                assert(defs[k].0 != defs[n - 1].0);
            }
        }
    }
}

/// Relaxed mode, for configurations of older layouts: each of service name,
/// image name, container name, port and health-check switch that `doc`
/// lacks (absent, blank or of the wrong type) gets its fixed default; every
/// other lookup is unchanged.
pub fn with_legacy_defaults(doc: &ConfigDocument) -> (r: ConfigDocument)
    ensures
        r@ == default_entries(doc@, legacy_defaults(), 5) + doc@,
        forall|k: int|
            0 <= k < 5 ==> has_field(
                r@,
                #[trigger] legacy_defaults()[k].0,
                legacy_defaults()[k].1,
            ),
        forall|k: int|
            0 <= k < 5 && has_field(doc@, #[trigger] legacy_defaults()[k].0, legacy_defaults()[k].1)
                ==> lookup(r@, legacy_defaults()[k].0) == lookup(doc@, legacy_defaults()[k].0),
        forall|k: int|
            0 <= k < 5 && !has_field(doc@, #[trigger] legacy_defaults()[k].0, legacy_defaults()[k].1)
                ==> lookup(r@, legacy_defaults()[k].0) == Some(legacy_defaults()[k].2),
        forall|key: Seq<char>|
            (forall|k: int| 0 <= k < 5 ==> #[trigger] legacy_defaults()[k].0 != key) ==> #[trigger] lookup(
                r@,
                key,
            ) == lookup(doc@, key),
{
    let ghost defs = legacy_defaults();
    let mut fields: Vec<ConfigField> = Vec::new();
    let names: [&'static str; 5] = [SERVICE_NAME, IMAGE_NAME, CONTAINER_NAME, PORT, ENABLE_HEALTHCHECK];
    let mut i: usize = 0;
    while i < 5
        invariant
            i <= 5,
            defs == legacy_defaults(),
            names@ == seq![SERVICE_NAME, IMAGE_NAME, CONTAINER_NAME, PORT, ENABLE_HEALTHCHECK],
            fields_view(fields@) == default_entries(doc@, defs, i as int),
        decreases 5 - i,
    {
        let name = names[i];
        let (kind, value) = if i < 3 {
            let text = if i == 0 {
                DEFAULT_SERVICE_NAME
            } else if i == 1 {
                DEFAULT_IMAGE_NAME
            } else {
                DEFAULT_CONTAINER_NAME
            };
            (FieldKind::Text, FieldValue::Text(String::from_str(text)))
        } else if i == 3 {
            (FieldKind::Port, FieldValue::Number(DEFAULT_PORT))
        } else {
            (FieldKind::Flag, FieldValue::Flag(false))
        };
        assert(defs[i as int] == (name@, kind, value@));
        if !holds_field(doc, name, kind) {
            let ghost before = fields_view(fields@);
            fields.push(ConfigField { key: String::from_str(name), value });
            assert(fields_view(fields@) =~= before.push((name@, value@)));
        }
        i = i + 1;
    }
    let ghost pre = fields_view(fields@);
    let mut j: usize = 0;
    while j < doc.fields.len()
        invariant
            j <= doc.fields.len(),
            pre == default_entries(doc@, defs, 5),
            defs == legacy_defaults(),
            fields_view(fields@) == pre + doc@.take(j as int),
        decreases doc.fields.len() - j,
    {
        let ghost before = fields_view(fields@);
        fields.push(copy_field(&doc.fields[j]));
        assert(doc@.take(j + 1) =~= doc@.take(j as int).push(doc@[j as int]));
        assert(fields_view(fields@) =~= before.push(doc@[j as int]));
        j = j + 1;
    }
    assert(doc@.take(doc.fields.len() as int) =~= doc@);
    let r = ConfigDocument { fields };
    proof {
        assert forall|a: int, b: int| 0 <= a < b < defs.len() implies #[trigger] defs[a].0
            != #[trigger] defs[b].0 by {
            reveal_strlit("service_name");
            reveal_strlit("image_name");
            reveal_strlit("container_name");
            reveal_strlit("port");
            reveal_strlit("enable_healthcheck");
            assert(defs[a].0.len() != defs[b].0.len() || defs[a].0[0] != defs[b].0[0]);
        }
        assert forall|key: Seq<char>| true implies #[trigger] lookup(r@, key) == match lookup(
            pre,
            key,
        ) {
            Some(v) => Some(v),
            None => lookup(doc@, key),
        } by {
            lemma_lookup_concat(pre, doc@, key, 0);
        }
        assert forall|k: int| 0 <= k < 5 implies {
            &&& has_field(r@, #[trigger] legacy_defaults()[k].0, legacy_defaults()[k].1)
            &&& has_field(doc@, legacy_defaults()[k].0, legacy_defaults()[k].1) ==> lookup(
                r@,
                legacy_defaults()[k].0,
            ) == lookup(doc@, legacy_defaults()[k].0)
            &&& !has_field(doc@, legacy_defaults()[k].0, legacy_defaults()[k].1) ==> lookup(
                r@,
                legacy_defaults()[k].0,
            ) == Some(legacy_defaults()[k].2)
        } by {
            let key = defs[k].0;
            lemma_default_entries(doc@, defs, 5, key);
            lemma_lookup_concat(pre, doc@, key, 0);
            if !has_field(doc@, key, defs[k].1) {
                assert(lookup(r@, key) == Some(defs[k].2));
                reveal_strlit("default_service");
                reveal_strlit("default_image");
                reveal_strlit("default_container");
                if k < 3 {
                    let t = if k == 0 {
                        DEFAULT_SERVICE_NAME@
                    } else if k == 1 {
                        DEFAULT_IMAGE_NAME@
                    } else {
                        DEFAULT_CONTAINER_NAME@
                    };
                    assert(defs[k].2 == FieldView::Text(t));
                    assert(!is_blank_char(t[0]));
                    assert(!is_blank(t));
                }
            }
        }
        assert forall|key: Seq<char>|
            (forall|k: int| 0 <= k < 5 ==> #[trigger] legacy_defaults()[k].0 != key) implies #[trigger] lookup(
            r@,
            key,
        ) == lookup(doc@, key) by {
            lemma_default_entries(doc@, defs, 5, key);
        }
    }
    r
}

/// Loads a configuration in relaxed mode: as `load_config`, but the record
/// gets its legacy defaults before it is checked.
pub fn load_config_relaxed(contents: Option<&str>) -> (r: Result<ProjectConfig, ConfigError>)
    ensures
        contents is None ==> r == Err::<ProjectConfig, ConfigError>(ConfigError::NotFound),
        contents matches Some(text) ==> match json_object_fields(text@) {
            None => r == Err::<ProjectConfig, ConfigError>(ConfigError::InvalidFormat),
            Some(doc) => {
                let relaxed = default_entries(doc, legacy_defaults(), 5) + doc;
                match r {
                    Ok(c) => c.record@ == relaxed && check_spec(relaxed) == CheckOutcome::Valid(
                        c.project_type,
                    ),
                    Err(e) => outcome_of(Err(e)) == check_spec(relaxed),
                }
            },
        },
{
    match contents {
        None => Err(ConfigError::NotFound),
        Some(text) => match parse_json_object(text) {
            None => Err(ConfigError::InvalidFormat),
            Some(parsed) => {
                let record = with_legacy_defaults(&parsed);
                match check_config(&record) {
                    Ok(project_type) => Ok(ProjectConfig { project_type, record }),
                    Err(e) => Err(e),
                }
            },
        },
    }
}

} // verus!
