//! One generator per artifact kind: the fields it requires, the templates it
//! renders and where their output goes under the output root.
use vstd::prelude::*;
use crate::config::{
    first_missing, first_missing_field, first_missing_from, flag_field, flag_of, has_field, lemma_none_missing,
    port_field, port_of, push_req, reqs_view, text_field, text_of, ConfigDocument, ConfigError,
    FieldKind, FieldReq, FieldView, ProjectType, CONTAINER_NAME, DOTNET_VERSION,
    ENABLE_HEALTHCHECK, IMAGE_NAME, NODE_VERSION, PORT, PROJECT_DIRECTORY, PROJECT_LOCATION,
    SERVICE_NAME,
};
use crate::template::{
    binding_pairs, block_view, fault_of, flag_pairs, inert_bindings, inert_value,
    lemma_rendered_has_no_placeholder, no_open_pair, render, render_spec, Binding, BlockFlag,
    RemovableBlock, RenderError, RenderFault, Template,
};
use crate::templates::{
    ANGULAR_CI, ANGULAR_COMPOSE, ANGULAR_DOCKERFILE, DOTNET_CI, DOTNET_COMPOSE, DOTNET_DOCKERFILE,
    HEALTHCHECK_MARKER, INVENTORY, NGINX_CONF, PLAYBOOK,
};
use crate::text::{append_all, chars_of, string_of};
use crate::writer::WriteError;

verus! {

pub const DOCKERFILE_PATH: &'static str = "Dockerfile";
pub const COMPOSE_PATH: &'static str = "compose.yaml";
pub const CI_PATH: &'static str = ".gitlab-ci.yml";
pub const INVENTORY_PATH: &'static str = "ansible/hosts.yml";
pub const PLAYBOOK_PATH: &'static str = "ansible/ansible-deploy.yml";
pub const NGINX_PATH: &'static str = "nginx.conf";
pub const LEGACY_COMPOSE_YAML: &'static str = "docker-compose.yaml";
pub const LEGACY_COMPOSE_YML: &'static str = "docker-compose.yml";

/// The kinds of artifact, one generator each.
#[derive(Debug, Clone, Copy, PartialEq, Eq, Structural)]
pub enum ArtifactKind {
    BuildFile,
    ComposeFile,
    CiPipeline,
    DeploymentPlaybook,
    ReverseProxyConfig,
}

/// A file to write: its path and its full contents.
#[derive(Debug, Clone, PartialEq, Eq)]
pub struct OutputFile {
    pub path: String,
    pub content: String,
}

/// What one generator produced: its files, and the legacy files that must be
/// backed up before they are written.
#[derive(Debug, Clone, PartialEq, Eq)]
pub struct GeneratedArtifact {
    pub kind: ArtifactKind,
    pub files: Vec<OutputFile>,
    pub legacy_files: Vec<String>,
}

#[derive(Debug, Clone, PartialEq, Eq)]
pub enum GenerationCause {
    Config(ConfigError),
    Render(RenderError),
    Write(WriteError),
}

/// Why the generator of `artifact` failed.
#[derive(Debug, Clone, PartialEq, Eq)]
pub struct GenerationError {
    pub artifact: ArtifactKind,
    pub cause: GenerationCause,
}

/// A template and the path, relative to the output root, it renders to.
pub struct ArtifactTemplate {
    pub path: &'static str,
    pub template: Template,
}

pub open spec fn text_req(name: &'static str) -> (Seq<char>, FieldKind) {
    (name@, FieldKind::Text)
}

/// The fields the generator of `kind` reads, in order.
pub open spec fn artifact_fields(kind: ArtifactKind, family: ProjectType) -> Seq<
    (Seq<char>, FieldKind),
> {
    match kind {
        ArtifactKind::BuildFile => match family {
            ProjectType::Dotnet => seq![text_req(PROJECT_DIRECTORY), text_req(DOTNET_VERSION)],
            ProjectType::Angular => seq![text_req(NODE_VERSION)],
        },
        ArtifactKind::ComposeFile => {
            let common = seq![
                text_req(SERVICE_NAME),
                text_req(IMAGE_NAME),
                text_req(CONTAINER_NAME),
                (PORT@, FieldKind::Port),
            ];
            match family {
                ProjectType::Dotnet => common.push((ENABLE_HEALTHCHECK@, FieldKind::Flag)),
                ProjectType::Angular => common,
            }
        },
        ArtifactKind::CiPipeline => match family {
            ProjectType::Dotnet => seq![
                text_req(DOTNET_VERSION),
                text_req(PROJECT_LOCATION),
                text_req(PROJECT_DIRECTORY),
            ],
            ProjectType::Angular => seq![text_req(PROJECT_LOCATION), text_req(PROJECT_DIRECTORY)],
        },
        ArtifactKind::DeploymentPlaybook => seq![
            text_req(PROJECT_LOCATION),
            text_req(PROJECT_DIRECTORY),
        ],
        ArtifactKind::ReverseProxyConfig => seq![],
    }
}

/// An output: relative path, template text, removable block.
pub type OutputView = (Seq<char>, Seq<char>, Option<(Seq<char>, Seq<char>)>);

/// The templates the generator of `kind` renders, in order.
pub open spec fn artifact_outputs(kind: ArtifactKind, family: ProjectType) -> Seq<OutputView> {
    match kind {
        ArtifactKind::BuildFile => match family {
            ProjectType::Dotnet => seq![(DOCKERFILE_PATH@, DOTNET_DOCKERFILE@, None)],
            ProjectType::Angular => seq![(DOCKERFILE_PATH@, ANGULAR_DOCKERFILE@, None)],
        },
        ArtifactKind::ComposeFile => match family {
            ProjectType::Dotnet => seq![
                (
                    COMPOSE_PATH@,
                    DOTNET_COMPOSE@,
                    Some((ENABLE_HEALTHCHECK@, HEALTHCHECK_MARKER@)),
                ),
            ],
            ProjectType::Angular => seq![(COMPOSE_PATH@, ANGULAR_COMPOSE@, None)],
        },
        ArtifactKind::CiPipeline => match family {
            ProjectType::Dotnet => seq![(CI_PATH@, DOTNET_CI@, None)],
            ProjectType::Angular => seq![(CI_PATH@, ANGULAR_CI@, None)],
        },
        ArtifactKind::DeploymentPlaybook => seq![
            (INVENTORY_PATH@, INVENTORY@, None),
            (PLAYBOOK_PATH@, PLAYBOOK@, None),
        ],
        ArtifactKind::ReverseProxyConfig => seq![(NGINX_PATH@, NGINX_CONF@, None)],
    }
}

/// Files of an older layout that the generator of `kind` backs up.
pub open spec fn legacy_names(kind: ArtifactKind) -> Seq<Seq<char>> {
    match kind {
        ArtifactKind::ComposeFile => seq![LEGACY_COMPOSE_YAML@, LEGACY_COMPOSE_YML@],
        _ => seq![],
    }
}

/// `rel` under `root`: the two joined by one `/`.
pub open spec fn join_path(root: Seq<char>, rel: Seq<char>) -> Seq<char> {
    if root.len() == 0 {
        rel
    } else if root.last() == '/' {
        root + rel
    } else {
        root + seq!['/'] + rel
    }
}

pub open spec fn legacy_paths(kind: ArtifactKind, root: Seq<char>) -> Seq<Seq<char>> {
    legacy_names(kind).map_values(|n: Seq<char>| join_path(root, n))
}

pub open spec fn digit_char(d: nat) -> char {
    seq!['0', '1', '2', '3', '4', '5', '6', '7', '8', '9'][d as int]
}

/// Decimal digits of `n`, most significant first.
pub open spec fn decimal(n: nat) -> Seq<char>
    decreases n,
{
    if n < 10 {
        seq![digit_char(n)]
    } else {
        decimal(n / 10).push(digit_char(n % 10))
    }
}

/// Placeholder values that `reqs[..n]` give: a text field's string, a
/// port's decimal digits.
pub open spec fn bindings_upto(
    doc: Seq<(Seq<char>, FieldView)>,
    reqs: Seq<(Seq<char>, FieldKind)>,
    n: int,
) -> Seq<(Seq<char>, Seq<char>)>
    decreases n,
{
    if n <= 0 {
        seq![]
    } else {
        let prev = bindings_upto(doc, reqs, n - 1);
        let name = reqs[n - 1].0;
        match reqs[n - 1].1 {
            FieldKind::Text => prev.push((name, text_of(doc, name).unwrap())),
            FieldKind::Port => prev.push((name, decimal(port_of(doc, name).unwrap() as nat))),
            FieldKind::Flag => prev,
        }
    }
}

/// Block switches that the boolean fields among `reqs[..n]` give.
pub open spec fn flags_upto(
    doc: Seq<(Seq<char>, FieldView)>,
    reqs: Seq<(Seq<char>, FieldKind)>,
    n: int,
) -> Seq<(Seq<char>, bool)>
    decreases n,
{
    if n <= 0 {
        seq![]
    } else {
        let prev = flags_upto(doc, reqs, n - 1);
        let name = reqs[n - 1].0;
        match reqs[n - 1].1 {
            FieldKind::Flag => prev.push((name, flag_of(doc, name).unwrap())),
            _ => prev,
        }
    }
}

/// The files that `outs[..n]` render to, or the first rendering failure.
pub open spec fn render_outputs(
    outs: Seq<OutputView>,
    root: Seq<char>,
    bs: Seq<(Seq<char>, Seq<char>)>,
    fs: Seq<(Seq<char>, bool)>,
    n: int,
) -> Result<Seq<(Seq<char>, Seq<char>)>, RenderFault>
    decreases n,
{
    if n <= 0 {
        Ok(seq![])
    } else {
        match render_outputs(outs, root, bs, fs, n - 1) {
            Err(e) => Err(e),
            Ok(prev) => match render_spec(outs[n - 1].1, outs[n - 1].2, bs, fs) {
                Err(e) => Err(e),
                Ok(s) => Ok(prev.push((join_path(root, outs[n - 1].0), s))),
            },
        }
    }
}

/// Why a generator fails, as plain values.
pub enum GenFault {
    Missing(Seq<char>),
    Render(RenderFault),
}

/// The files the generator of `kind` produces from `doc` under `root`: its
/// first missing field, else its rendered templates or the first rendering
/// failure.
pub open spec fn generate_spec(
    kind: ArtifactKind,
    family: ProjectType,
    doc: Seq<(Seq<char>, FieldView)>,
    root: Seq<char>,
) -> Result<Seq<(Seq<char>, Seq<char>)>, GenFault> {
    let reqs = artifact_fields(kind, family);
    match first_missing(doc, reqs) {
        Some(f) => Err(GenFault::Missing(f)),
        None => {
            let outs = artifact_outputs(kind, family);
            match render_outputs(
                outs,
                root,
                bindings_upto(doc, reqs, reqs.len() as int),
                flags_upto(doc, reqs, reqs.len() as int),
                outs.len() as int,
            ) {
                Ok(files) => Ok(files),
                Err(e) => Err(GenFault::Render(e)),
            }
        },
    }
}

pub open spec fn files_view(fs: Seq<OutputFile>) -> Seq<(Seq<char>, Seq<char>)> {
    Seq::new(fs.len(), |i: int| (fs[i].path@, fs[i].content@))
}

pub open spec fn strings_view(ss: Seq<String>) -> Seq<Seq<char>> {
    Seq::new(ss.len(), |i: int| ss[i]@)
}

/// `r` is what the generator of `kind` gives for `doc` under `root`.
pub open spec fn generated_as(
    r: Result<GeneratedArtifact, GenerationError>,
    kind: ArtifactKind,
    family: ProjectType,
    doc: Seq<(Seq<char>, FieldView)>,
    root: Seq<char>,
) -> bool {
    match generate_spec(kind, family, doc, root) {
        Ok(files) => r matches Ok(a) && a.kind == kind && files_view(a.files@) == files
            && strings_view(a.legacy_files@) == legacy_paths(kind, root),
        Err(GenFault::Missing(f)) => r matches Err(e) && e.artifact == kind && (
        e.cause matches GenerationCause::Config(ConfigError::MissingField(n)) && n@ == f),
        Err(GenFault::Render(rf)) => r matches Err(e) && e.artifact == kind && (
        e.cause matches GenerationCause::Render(re) && fault_of(re) == rf),
    }
}

/// The fields the generator of `kind` reads, in order.
pub fn artifact_requirements(kind: ArtifactKind, family: ProjectType) -> (r: Vec<FieldReq>)
    ensures
        reqs_view(r@) == artifact_fields(kind, family),
{
    let mut v: Vec<FieldReq> = Vec::new();
    match kind {
        ArtifactKind::BuildFile => match family {
            ProjectType::Dotnet => {
                push_req(&mut v, PROJECT_DIRECTORY, FieldKind::Text);
                push_req(&mut v, DOTNET_VERSION, FieldKind::Text);
            },
            ProjectType::Angular => {
                push_req(&mut v, NODE_VERSION, FieldKind::Text);
            },
        },
        ArtifactKind::ComposeFile => {
            push_req(&mut v, SERVICE_NAME, FieldKind::Text);
            push_req(&mut v, IMAGE_NAME, FieldKind::Text);
            push_req(&mut v, CONTAINER_NAME, FieldKind::Text);
            push_req(&mut v, PORT, FieldKind::Port);
            if family == ProjectType::Dotnet {
                push_req(&mut v, ENABLE_HEALTHCHECK, FieldKind::Flag);
            }
        },
        ArtifactKind::CiPipeline => {
            if family == ProjectType::Dotnet {
                push_req(&mut v, DOTNET_VERSION, FieldKind::Text);
            }
            push_req(&mut v, PROJECT_LOCATION, FieldKind::Text);
            push_req(&mut v, PROJECT_DIRECTORY, FieldKind::Text);
        },
        ArtifactKind::DeploymentPlaybook => {
            push_req(&mut v, PROJECT_LOCATION, FieldKind::Text);
            push_req(&mut v, PROJECT_DIRECTORY, FieldKind::Text);
        },
        ArtifactKind::ReverseProxyConfig => {},
    }
    assert(reqs_view(v@) =~= artifact_fields(kind, family));
    v
}

pub open spec fn outputs_view(ts: Seq<ArtifactTemplate>) -> Seq<OutputView> {
    Seq::new(
        ts.len(),
        |i: int| (ts[i].path@, ts[i].template.text@, block_view(ts[i].template.block)),
    )
}

fn push_output(v: &mut Vec<ArtifactTemplate>, path: &'static str, text: &'static str)
    ensures
        outputs_view(final(v)@) == outputs_view(old(v)@).push((path@, text@, None)),
{
    v.push(ArtifactTemplate { path, template: Template { text: String::from_str(text), block: None } });
    assert(outputs_view(v@) =~= outputs_view(old(v)@).push((path@, text@, None)));
}

/// The templates the generator of `kind` renders, in order.
pub fn artifact_templates(kind: ArtifactKind, family: ProjectType) -> (r: Vec<ArtifactTemplate>)
    ensures
        outputs_view(r@) == artifact_outputs(kind, family),
{
    let mut v: Vec<ArtifactTemplate> = Vec::new();
    match kind {
        ArtifactKind::BuildFile => match family {
            ProjectType::Dotnet => push_output(&mut v, DOCKERFILE_PATH, DOTNET_DOCKERFILE),
            ProjectType::Angular => push_output(&mut v, DOCKERFILE_PATH, ANGULAR_DOCKERFILE),
        },
        ArtifactKind::ComposeFile => match family {
            ProjectType::Dotnet => {
                let block = RemovableBlock {
                    flag: String::from_str(ENABLE_HEALTHCHECK),
                    marker: String::from_str(HEALTHCHECK_MARKER),
                };
                let template = Template { text: String::from_str(DOTNET_COMPOSE), block: Some(block) };
                v.push(ArtifactTemplate { path: COMPOSE_PATH, template });
            },
            ProjectType::Angular => push_output(&mut v, COMPOSE_PATH, ANGULAR_COMPOSE),
        },
        ArtifactKind::CiPipeline => match family {
            ProjectType::Dotnet => push_output(&mut v, CI_PATH, DOTNET_CI),
            ProjectType::Angular => push_output(&mut v, CI_PATH, ANGULAR_CI),
        },
        ArtifactKind::DeploymentPlaybook => {
            push_output(&mut v, INVENTORY_PATH, INVENTORY);
            push_output(&mut v, PLAYBOOK_PATH, PLAYBOOK);
        },
        ArtifactKind::ReverseProxyConfig => push_output(&mut v, NGINX_PATH, NGINX_CONF),
    }
    assert(outputs_view(v@) =~= artifact_outputs(kind, family));
    v
}

fn digit(d: u16) -> (c: char)
    requires
        d < 10,
    ensures
        c == digit_char(d as nat),
{
    let ds: [char; 10] = ['0', '1', '2', '3', '4', '5', '6', '7', '8', '9'];
    assert(ds@ =~= seq!['0', '1', '2', '3', '4', '5', '6', '7', '8', '9']);
    ds[d as usize]
}

/// Decimal digits of `n`, most significant first.
pub fn decimal_text(n: u16) -> (r: Vec<char>)
    ensures
        r@ == decimal(n as nat),
{
    let mut out: Vec<char> = Vec::new();
    let mut m: u16 = n;
    while m >= 10
        invariant
            decimal(n as nat) == decimal(m as nat) + out@,
        decreases m,
    {
        let ghost before = out@;
        out.insert(0, digit(m % 10));
        assert(decimal(m as nat) == decimal((m / 10) as nat).push(digit_char((m % 10) as nat)));
        assert(decimal((m / 10) as nat) + out@ =~= decimal(m as nat) + before);
        m = m / 10;
    }
    out.insert(0, digit(m));
    assert(out@ =~= decimal(m as nat) + out@.skip(1));
    out
}

/// `rel` under `root`.
pub fn join_under(root: &Vec<char>, rel: &str) -> (r: String)
    ensures
        r@ == join_path(root@, rel@),
{
    let mut out: Vec<char> = Vec::new();
    append_all(&mut out, root);
    if root.len() > 0 && root[root.len() - 1] != '/' {
        out.push('/');
    }
    append_all(&mut out, &chars_of(rel));
    proof {
        if root@.len() > 0 && root@.last() != '/' {
            assert(out@ =~= root@ + seq!['/'] + rel@);
        } else {
            assert(out@ =~= root@ + rel@);
        }
    }
    string_of(&out)
}

/// Placeholder values and block switches from the fields `reqs`, all of
/// which `doc` holds.
fn bind_fields(doc: &ConfigDocument, reqs: &Vec<FieldReq>) -> (r: (Vec<Binding>, Vec<BlockFlag>))
    requires
        forall|k: int|
            0 <= k < reqs.len() ==> has_field(
                doc@,
                #[trigger] reqs_view(reqs@)[k].0,
                reqs_view(reqs@)[k].1,
            ),
    ensures
        binding_pairs(r.0@) == bindings_upto(doc@, reqs_view(reqs@), reqs.len() as int),
        flag_pairs(r.1@) == flags_upto(doc@, reqs_view(reqs@), reqs.len() as int),
{
    let ghost rv = reqs_view(reqs@);
    let mut bindings: Vec<Binding> = Vec::new();
    let mut flags: Vec<BlockFlag> = Vec::new();
    let mut i: usize = 0;
    while i < reqs.len()
        invariant
            i <= reqs.len(),
            rv == reqs_view(reqs@),
            forall|k: int| 0 <= k < reqs.len() ==> has_field(doc@, #[trigger] rv[k].0, rv[k].1),
            binding_pairs(bindings@) == bindings_upto(doc@, rv, i as int),
            flag_pairs(flags@) == flags_upto(doc@, rv, i as int),
        decreases reqs.len() - i,
    {
        let req = reqs[i];
        assert(rv[i as int] == (req.name@, req.kind));
        assert(has_field(doc@, rv[i as int].0, rv[i as int].1));
        let ghost old_b = bindings@;
        let ghost old_f = flags@;
        match req.kind {
            FieldKind::Text => {
                let value = text_field(doc, req.name).unwrap();
                bindings.push(Binding { key: String::from_str(req.name), value });
                assert(binding_pairs(bindings@) =~= binding_pairs(old_b).push(
                    (req.name@, text_of(doc@, req.name@).unwrap()),
                ));
            },
            FieldKind::Port => {
                let port = port_field(doc, req.name).unwrap();
                let value = string_of(&decimal_text(port));
                bindings.push(Binding { key: String::from_str(req.name), value });
                assert(binding_pairs(bindings@) =~= binding_pairs(old_b).push(
                    (req.name@, decimal(port_of(doc@, req.name@).unwrap() as nat)),
                ));
            },
            FieldKind::Flag => {
                let enabled = flag_field(doc, req.name).unwrap();
                flags.push(BlockFlag { name: String::from_str(req.name), enabled });
                assert(flag_pairs(flags@) =~= flag_pairs(old_f).push(
                    (req.name@, flag_of(doc@, req.name@).unwrap()),
                ));
            },
        }
        i = i + 1;
    }
    (bindings, flags)
}

proof fn lemma_render_failure_persists(
    outs: Seq<OutputView>,
    root: Seq<char>,
    bs: Seq<(Seq<char>, Seq<char>)>,
    fs: Seq<(Seq<char>, bool)>,
    i: int,
    n: int,
)
    requires
        0 <= i <= n,
        render_outputs(outs, root, bs, fs, i) is Err,
    ensures
        render_outputs(outs, root, bs, fs, n) == render_outputs(outs, root, bs, fs, i),
    decreases n - i,
{
    if i < n {
        lemma_render_failure_persists(outs, root, bs, fs, i, n - 1);
    }
}

/// Runs the generator of `kind` for a `family` project on `doc`, placing its
/// files under `root`.
pub fn generate(kind: ArtifactKind, family: ProjectType, doc: &ConfigDocument, root: &str) -> (r:
    Result<GeneratedArtifact, GenerationError>)
    ensures
        generated_as(r, kind, family, doc@, root@),
{
    let reqs = artifact_requirements(kind, family);
    if let Some(f) = first_missing_field(doc, &reqs) {
        let cause = GenerationCause::Config(ConfigError::MissingField(String::from_str(f)));
        return Err(GenerationError { artifact: kind, cause });
    }
    proof {
        lemma_none_missing(doc@, reqs_view(reqs@), 0);
    }
    let ghost rv = reqs_view(reqs@);
    let (bindings, flags) = bind_fields(doc, &reqs);
    let ghost bs = binding_pairs(bindings@);
    let ghost fs = flag_pairs(flags@);
    let outs = artifact_templates(kind, family);
    let ghost ov = outputs_view(outs@);
    let root_chars = chars_of(root);
    let mut files: Vec<OutputFile> = Vec::new();
    assert(files_view(files@) =~= seq![]);
    assert(rv.len() == reqs.len());
    let mut i: usize = 0;
    while i < outs.len()
        invariant
            i <= outs.len(),
            ov == outputs_view(outs@),
            ov == artifact_outputs(kind, family),
            rv == artifact_fields(kind, family),
            first_missing(doc@, rv) is None,
            bs == bindings_upto(doc@, rv, rv.len() as int),
            fs == flags_upto(doc@, rv, rv.len() as int),
            bs == binding_pairs(bindings@),
            fs == flag_pairs(flags@),
            root_chars@ == root@,
            render_outputs(ov, root@, bs, fs, i as int) == Ok::<
                Seq<(Seq<char>, Seq<char>)>,
                RenderFault,
            >(files_view(files@)),
        decreases outs.len() - i,
    {
        let out = &outs[i];
        match render(&out.template, &bindings, &flags) {
            Err(e) => {
                proof {
                    assert(ov[i as int] == (out.path@, out.template.text@, block_view(
                        out.template.block,
                    )));
                    assert(render_outputs(ov, root@, bs, fs, i + 1) == Err::<
                        Seq<(Seq<char>, Seq<char>)>,
                        RenderFault,
                    >(fault_of(e)));
                    lemma_render_failure_persists(ov, root@, bs, fs, i + 1, ov.len() as int);
                    assert(rv == artifact_fields(kind, family));
                    assert(bs == bindings_upto(doc@, rv, rv.len() as int));
                    assert(fs == flags_upto(doc@, rv, rv.len() as int));
                    assert(first_missing(doc@, rv) is None);
                    assert(render_outputs(ov, root@, bs, fs, ov.len() as int) == Err::<
                        Seq<(Seq<char>, Seq<char>)>,
                        RenderFault,
                    >(fault_of(e)));
                }
                return Err(GenerationError { artifact: kind, cause: GenerationCause::Render(e) });
            },
            Ok(content) => {
                let ghost before = files@;
                let path = join_under(&root_chars, out.path);
                files.push(OutputFile { path, content });
                assert(files_view(files@) =~= files_view(before).push(
                    (join_path(root@, ov[i as int].0), files@.last().content@),
                ));
            },
        }
        i = i + 1;
    }
    let mut legacy_files: Vec<String> = Vec::new();
    if kind == ArtifactKind::ComposeFile {
        legacy_files.push(join_under(&root_chars, LEGACY_COMPOSE_YAML));
        legacy_files.push(join_under(&root_chars, LEGACY_COMPOSE_YML));
    }
    assert(strings_view(legacy_files@) =~= legacy_paths(kind, root@));
    Ok(GeneratedArtifact { kind, files, legacy_files })
}

/// The build file of a .NET service.
pub fn generate_dockerfile_for_dotnet(config: &ConfigDocument, root: &str) -> (r: Result<
    GeneratedArtifact,
    GenerationError,
>)
    ensures
        generated_as(r, ArtifactKind::BuildFile, ProjectType::Dotnet, config@, root@),
{
    generate(ArtifactKind::BuildFile, ProjectType::Dotnet, config, root)
}

/// The compose file of a .NET service; its health-check block stays only where
/// `enable_healthcheck` is true.
pub fn generate_compose_file_for_dotnet(config: &ConfigDocument, root: &str) -> (r: Result<
    GeneratedArtifact,
    GenerationError,
>)
    ensures
        generated_as(r, ArtifactKind::ComposeFile, ProjectType::Dotnet, config@, root@),
{
    generate(ArtifactKind::ComposeFile, ProjectType::Dotnet, config, root)
}

/// The CI pipeline of a .NET service.
pub fn generate_gitlab_cil_file_for_dotnet(config: &ConfigDocument, root: &str) -> (r: Result<
    GeneratedArtifact,
    GenerationError,
>)
    ensures
        generated_as(r, ArtifactKind::CiPipeline, ProjectType::Dotnet, config@, root@),
{
    generate(ArtifactKind::CiPipeline, ProjectType::Dotnet, config, root)
}

/// The inventory and playbook that deploy a .NET service.
pub fn copy_ansible_files(config: &ConfigDocument, root: &str) -> (r: Result<
    GeneratedArtifact,
    GenerationError,
>)
    ensures
        generated_as(r, ArtifactKind::DeploymentPlaybook, ProjectType::Dotnet, config@, root@),
{
    generate(ArtifactKind::DeploymentPlaybook, ProjectType::Dotnet, config, root)
}

/// The build file of an Angular application.
pub fn generate_dockerfile_for_angular(config: &ConfigDocument, root: &str) -> (r: Result<
    GeneratedArtifact,
    GenerationError,
>)
    ensures
        generated_as(r, ArtifactKind::BuildFile, ProjectType::Angular, config@, root@),
{
    generate(ArtifactKind::BuildFile, ProjectType::Angular, config, root)
}

/// The compose file of an Angular application.
pub fn generate_compose_file_for_angular(config: &ConfigDocument, root: &str) -> (r: Result<
    GeneratedArtifact,
    GenerationError,
>)
    ensures
        generated_as(r, ArtifactKind::ComposeFile, ProjectType::Angular, config@, root@),
{
    generate(ArtifactKind::ComposeFile, ProjectType::Angular, config, root)
}

/// The CI pipeline of an Angular application.
pub fn generate_gitlab_ci_file_for_angular(config: &ConfigDocument, root: &str) -> (r: Result<
    GeneratedArtifact,
    GenerationError,
>)
    ensures
        generated_as(r, ArtifactKind::CiPipeline, ProjectType::Angular, config@, root@),
{
    generate(ArtifactKind::CiPipeline, ProjectType::Angular, config, root)
}

/// The inventory and playbook that deploy an Angular application.
pub fn generate_ansible_files_for_angular(config: &ConfigDocument, root: &str) -> (r: Result<
    GeneratedArtifact,
    GenerationError,
>)
    ensures
        generated_as(r, ArtifactKind::DeploymentPlaybook, ProjectType::Angular, config@, root@),
{
    generate(ArtifactKind::DeploymentPlaybook, ProjectType::Angular, config, root)
}

/// The nginx configuration that serves an Angular application.
pub fn generate_nginx_file_angular(config: &ConfigDocument, root: &str) -> (r: Result<
    GeneratedArtifact,
    GenerationError,
>)
    ensures
        generated_as(r, ArtifactKind::ReverseProxyConfig, ProjectType::Angular, config@, root@),
{
    generate(ArtifactKind::ReverseProxyConfig, ProjectType::Angular, config, root)
}

proof fn lemma_first_missing_found(
    doc: Seq<(Seq<char>, FieldView)>,
    reqs: Seq<(Seq<char>, FieldKind)>,
    from: int,
    i: int,
)
    requires
        0 <= from <= i < reqs.len(),
        !has_field(doc, reqs[i].0, reqs[i].1),
    ensures
        first_missing_from(doc, reqs, from) matches Some(f) && exists|j: int|
            from <= j <= i && #[trigger] reqs[j].0 == f,
    decreases i - from,
{
    if has_field(doc, reqs[from].0, reqs[from].1) {
        lemma_first_missing_found(doc, reqs, from + 1, i);
        let f = first_missing_from(doc, reqs, from + 1)->0;
        let j = choose|j: int| from + 1 <= j <= i && #[trigger] reqs[j].0 == f;
        assert(reqs[j].0 == f);
    } else {
        assert(reqs[from].0 == first_missing_from(doc, reqs, from)->0);
    }
}

/// A generator never produces output without a field it requires: where
/// `doc` lacks the required field at position `i` (absent, blank, or of the
/// wrong type), generation fails with `MissingField` naming that field or
/// one listed before it.
pub proof fn lemma_missing_field_fails(
    kind: ArtifactKind,
    family: ProjectType,
    doc: Seq<(Seq<char>, FieldView)>,
    root: Seq<char>,
    i: int,
)
    requires
        0 <= i < artifact_fields(kind, family).len(),
        !has_field(doc, artifact_fields(kind, family)[i].0, artifact_fields(kind, family)[i].1),
    ensures
        generate_spec(kind, family, doc, root) matches Err(GenFault::Missing(f)) && exists|j: int|
            0 <= j <= i && #[trigger] artifact_fields(kind, family)[j].0 == f,
{
    lemma_first_missing_found(doc, artifact_fields(kind, family), 0, i);
}

proof fn lemma_decimal_has_no_brace(n: nat)
    ensures
        forall|i: int| 0 <= i < decimal(n).len() ==> #[trigger] decimal(n)[i] != '{',
        decimal(n).len() > 0,
    decreases n,
{
    let ds = seq!['0', '1', '2', '3', '4', '5', '6', '7', '8', '9'];
    assert(forall|d: int| 0 <= d < 10 ==> ds[d] != '{');
    if n >= 10 {
        lemma_decimal_has_no_brace(n / 10);
    }
}

proof fn lemma_bindings_inert(
    doc: Seq<(Seq<char>, FieldView)>,
    reqs: Seq<(Seq<char>, FieldKind)>,
    n: int,
)
    requires
        0 <= n <= reqs.len(),
        forall|k: int| 0 <= k < reqs.len() ==> has_field(doc, #[trigger] reqs[k].0, reqs[k].1),
        forall|k: int|
            0 <= k < reqs.len() && reqs[k].1 == FieldKind::Text ==> inert_value(
                #[trigger] text_of(doc, reqs[k].0).unwrap(),
            ),
    ensures
        inert_bindings(bindings_upto(doc, reqs, n)),
    decreases n,
{
    if n > 0 {
        lemma_bindings_inert(doc, reqs, n - 1);
        let prev = bindings_upto(doc, reqs, n - 1);
        let name = reqs[n - 1].0;
        assert(has_field(doc, reqs[n - 1].0, reqs[n - 1].1));
        if reqs[n - 1].1 == FieldKind::Port {
            let v = decimal(port_of(doc, name).unwrap() as nat);
            lemma_decimal_has_no_brace(port_of(doc, name).unwrap() as nat);
            assert(v[v.len() - 1] != '{');
        } else if reqs[n - 1].1 == FieldKind::Text {
            assert(inert_value(text_of(doc, reqs[n - 1].0).unwrap()));
        }
        let cur = bindings_upto(doc, reqs, n);
        assert forall|i: int| 0 <= i < cur.len() implies inert_value(#[trigger] cur[i].1) by {
            if i < prev.len() {
                assert(cur[i] == prev[i]);
            }
        }
    }
}

proof fn lemma_outputs_inert(
    outs: Seq<OutputView>,
    root: Seq<char>,
    bs: Seq<(Seq<char>, Seq<char>)>,
    fs: Seq<(Seq<char>, bool)>,
    n: int,
)
    requires
        0 <= n <= outs.len(),
        inert_bindings(bs),
    ensures
        render_outputs(outs, root, bs, fs, n) matches Ok(files) ==> forall|i: int|
            0 <= i < files.len() ==> no_open_pair(#[trigger] files[i].1),
    decreases n,
{
    if n > 0 {
        lemma_outputs_inert(outs, root, bs, fs, n - 1);
        lemma_rendered_has_no_placeholder(outs[n - 1].1, outs[n - 1].2, bs, fs);
    }
}

/// No placeholder leaks into an artifact: where every text field that a
/// generator reads is inert (holds no `{{` and does not end with `{`), each
/// file it produces holds no `{{`.
pub proof fn lemma_generated_has_no_placeholder(
    kind: ArtifactKind,
    family: ProjectType,
    doc: Seq<(Seq<char>, FieldView)>,
    root: Seq<char>,
)
    requires
        forall|k: int|
            0 <= k < artifact_fields(kind, family).len() && artifact_fields(kind, family)[k].1
                == FieldKind::Text && text_of(doc, artifact_fields(kind, family)[k].0) is Some
                ==> inert_value(#[trigger] text_of(doc, artifact_fields(kind, family)[k].0).unwrap()),
    ensures
        generate_spec(kind, family, doc, root) matches Ok(files) ==> forall|i: int|
            0 <= i < files.len() ==> no_open_pair(#[trigger] files[i].1),
{
    let reqs = artifact_fields(kind, family);
    if first_missing(doc, reqs) is None {
        lemma_none_missing(doc, reqs, 0);
        assert forall|k: int| 0 <= k < reqs.len() && reqs[k].1 == FieldKind::Text implies inert_value(
            #[trigger] text_of(doc, reqs[k].0).unwrap(),
        ) by {
            assert(has_field(doc, reqs[k].0, reqs[k].1));
        }
        lemma_bindings_inert(doc, reqs, reqs.len() as int);
        let outs = artifact_outputs(kind, family);
        lemma_outputs_inert(
            outs,
            root,
            bindings_upto(doc, reqs, reqs.len() as int),
            flags_upto(doc, reqs, reqs.len() as int),
            outs.len() as int,
        );
    }
}

} // verus!
