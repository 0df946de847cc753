//! Non-destructive writes: the plan of filesystem operations that puts an
//! artifact on disk, and a model of what the plan does to the files.
//!
//! The model maps each path to the contents of the file there. Directories
//! are left out of it: creating them changes no file.
use vstd::prelude::*;
use crate::config::{FieldView, ProjectType};
use crate::generator::{
    artifact_outputs, bindings_upto, files_view, flags_upto, generate_spec, join_path, legacy_paths,
    render_outputs, strings_view, ArtifactKind, GeneratedArtifact, OutputView, COMPOSE_PATH,
    INVENTORY_PATH, LEGACY_COMPOSE_YAML, LEGACY_COMPOSE_YML, PLAYBOOK_PATH,
};
use crate::text::{append_all, chars_of, string_of};

verus! {

pub const BACKUP_SUFFIX: &'static str = ".backup";

#[derive(Debug, Clone, Copy, PartialEq, Eq, Structural)]
pub enum WriteError {
    /// The filesystem refused access.
    Permission,
    /// Any other filesystem failure.
    Filesystem,
    /// An existing file could not be renamed to its backup.
    BackupFailed,
}

/// One filesystem operation of a write plan.
#[derive(Debug, Clone, PartialEq, Eq)]
pub enum FsOp {
    /// Create every missing directory above `path`.
    CreateParentDirs { path: String },
    /// Where a file exists at `from`, rename it to `to`, replacing any file
    /// there. Where `required` is false, a failure is reported and skipped.
    Backup { from: String, to: String, required: bool },
    /// Make `content` the whole contents of the file at `path`.
    Write { path: String, content: String },
}

/// An operation as plain values.
pub enum OpView {
    CreateParentDirs(Seq<char>),
    Backup(Seq<char>, Seq<char>, bool),
    Write(Seq<char>, Seq<char>),
}

impl View for FsOp {
    type V = OpView;

    open spec fn view(&self) -> OpView {
        match self {
            FsOp::CreateParentDirs { path } => OpView::CreateParentDirs(path@),
            FsOp::Backup { from, to, required } => OpView::Backup(from@, to@, *required),
            FsOp::Write { path, content } => OpView::Write(path@, content@),
        }
    }
}

pub open spec fn ops_view(ops: Seq<FsOp>) -> Seq<OpView> {
    Seq::new(ops.len(), |i: int| ops[i]@)
}

/// Where the file at `p` is kept when it is replaced.
pub open spec fn backup_of(p: Seq<char>) -> Seq<char> {
    p + BACKUP_SUFFIX@
}

/// Files after `op` succeeds.
pub open spec fn apply_op(fs: Map<Seq<char>, Seq<char>>, op: OpView) -> Map<Seq<char>, Seq<char>> {
    match op {
        OpView::CreateParentDirs(_) => fs,
        OpView::Backup(from, to, _) => if fs.contains_key(from) {
            fs.remove(from).insert(to, fs[from])
        } else {
            fs
        },
        OpView::Write(path, content) => fs.insert(path, content),
    }
}

/// Files after `ops[..n]` succeed, in order.
pub open spec fn apply_ops(fs: Map<Seq<char>, Seq<char>>, ops: Seq<OpView>, n: int) -> Map<
    Seq<char>,
    Seq<char>,
>
    decreases n,
{
    if n <= 0 {
        fs
    } else {
        apply_op(apply_ops(fs, ops, n - 1), ops[n - 1])
    }
}

/// Writing `content` at `path`: parent directories, backup of what is
/// there, then the new contents.
pub open spec fn write_ops(path: Seq<char>, content: Seq<char>) -> Seq<OpView> {
    seq![
        OpView::CreateParentDirs(path),
        OpView::Backup(path, backup_of(path), true),
        OpView::Write(path, content),
    ]
}

/// The backups of the legacy files `ls[..n]`, each allowed to fail.
pub open spec fn legacy_ops(ls: Seq<Seq<char>>, n: int) -> Seq<OpView>
    decreases n,
{
    if n <= 0 {
        seq![]
    } else {
        legacy_ops(ls, n - 1).push(OpView::Backup(ls[n - 1], backup_of(ls[n - 1]), false))
    }
}

/// The writes of `files[..n]`, in order.
pub open spec fn file_ops(files: Seq<(Seq<char>, Seq<char>)>, n: int) -> Seq<OpView>
    decreases n,
{
    if n <= 0 {
        seq![]
    } else {
        file_ops(files, n - 1) + write_ops(files[n - 1].0, files[n - 1].1)
    }
}

/// The plan of an artifact: its legacy files backed up, then its files written.
pub open spec fn plan_spec(legacy: Seq<Seq<char>>, files: Seq<(Seq<char>, Seq<char>)>) -> Seq<OpView> {
    legacy_ops(legacy, legacy.len() as int) + file_ops(files, files.len() as int)
}

/// `p` with the backup suffix.
pub fn backup_path(p: &str) -> (r: String)
    ensures
        r@ == backup_of(p@),
{
    let mut out = chars_of(p);
    append_all(&mut out, &chars_of(BACKUP_SUFFIX));
    string_of(&out)
}

/// Appends the operations that write `content` at `path`.
fn push_write(ops: &mut Vec<FsOp>, path: &String, content: &String)
    ensures
        ops_view(final(ops)@) == ops_view(old(ops)@) + write_ops(path@, content@),
{
    ops.push(FsOp::CreateParentDirs { path: path.clone() });
    ops.push(FsOp::Backup { from: path.clone(), to: backup_path(path.as_str()), required: true });
    ops.push(FsOp::Write { path: path.clone(), content: content.clone() });
    assert(ops_view(ops@) =~= ops_view(old(ops)@) + write_ops(path@, content@));
}

/// The operations that write `content` at `path` without losing what is
/// there: parent directories, backup, new contents.
pub fn plan_write(path: &String, content: &String) -> (r: Vec<FsOp>)
    ensures
        ops_view(r@) == write_ops(path@, content@),
{
    let mut ops: Vec<FsOp> = Vec::new();
    push_write(&mut ops, path, content);
    assert(ops_view(ops@) =~= write_ops(path@, content@));
    ops
}

/// The operations that put `artifact` on disk.
pub fn plan_artifact(artifact: &GeneratedArtifact) -> (r: Vec<FsOp>)
    ensures
        ops_view(r@) == plan_spec(strings_view(artifact.legacy_files@), files_view(artifact.files@)),
{
    let ghost ls = strings_view(artifact.legacy_files@);
    let ghost fv = files_view(artifact.files@);
    let mut ops: Vec<FsOp> = Vec::new();
    let mut i: usize = 0;
    while i < artifact.legacy_files.len()
        invariant
            i <= artifact.legacy_files.len(),
            ls == strings_view(artifact.legacy_files@),
            ops_view(ops@) == legacy_ops(ls, i as int),
        decreases artifact.legacy_files.len() - i,
    {
        let from = &artifact.legacy_files[i];
        let ghost before = ops@;
        ops.push(FsOp::Backup { from: from.clone(), to: backup_path(from.as_str()), required: false });
        assert(ops_view(ops@) =~= ops_view(before).push(
            OpView::Backup(ls[i as int], backup_of(ls[i as int]), false),
        ));
        i = i + 1;
    }
    let ghost legacy_part = ops_view(ops@);
    let mut j: usize = 0;
    assert(ops_view(ops@) =~= legacy_part + file_ops(fv, 0));
    while j < artifact.files.len()
        invariant
            j <= artifact.files.len(),
            fv == files_view(artifact.files@),
            legacy_part == legacy_ops(ls, ls.len() as int),
            ops_view(ops@) == legacy_part + file_ops(fv, j as int),
        decreases artifact.files.len() - j,
    {
        let file = &artifact.files[j];
        push_write(&mut ops, &file.path, &file.content);
        assert(legacy_part + file_ops(fv, j as int) + write_ops(fv[j as int].0, fv[j as int].1)
            =~= legacy_part + file_ops(fv, j + 1));
        j = j + 1;
    }
    ops
}

/// The error to report when `op` fails; `permission_denied` tells whether
/// the filesystem refused access.
pub fn classify_failure(op: &FsOp, permission_denied: bool) -> (r: WriteError)
    ensures
        op is Backup ==> r == WriteError::BackupFailed,
        !(op is Backup) && permission_denied ==> r == WriteError::Permission,
        !(op is Backup) && !permission_denied ==> r == WriteError::Filesystem,
{
    match op {
        FsOp::Backup { .. } => WriteError::BackupFailed,
        _ => if permission_denied {
            WriteError::Permission
        } else {
            WriteError::Filesystem
        },
    }
}

proof fn lemma_suffix_differs(p: Seq<char>)
    ensures
        backup_of(p) != p,
{
    assert(backup_of(p).len() == p.len() + BACKUP_SUFFIX@.len());
    assert(BACKUP_SUFFIX@.len() > 0) by {
        reveal_strlit(".backup");
    }
}

/// Writing never loses the file it replaces: where a file with contents `c`
/// stands at `path`, after the write its backup holds `c` and `path` holds
/// the new contents. Where no file stood there, the backup is untouched.
pub proof fn lemma_write_keeps_backup(fs: Map<Seq<char>, Seq<char>>, path: Seq<char>, content: Seq<char>)
    ensures
        apply_ops(fs, write_ops(path, content), 3).contains_key(path),
        apply_ops(fs, write_ops(path, content), 3)[path] == content,
        fs.contains_key(path) ==> apply_ops(fs, write_ops(path, content), 3).contains_key(
            backup_of(path),
        ) && apply_ops(fs, write_ops(path, content), 3)[backup_of(path)] == fs[path],
        !fs.contains_key(path) ==> apply_ops(fs, write_ops(path, content), 3) == fs.insert(
            path,
            content,
        ),
{
    lemma_suffix_differs(path);
    let ops = write_ops(path, content);
    assert(ops[0] == OpView::CreateParentDirs(path));
    assert(ops[1] == OpView::Backup(path, backup_of(path), true));
    assert(ops[2] == OpView::Write(path, content));
    assert(apply_ops(fs, ops, 0) == fs);
    assert(apply_ops(fs, ops, 1) == fs);
    let backed = apply_ops(fs, ops, 2);
    if fs.contains_key(path) {
        assert(backed == fs.remove(path).insert(backup_of(path), fs[path]));
        assert(backed.contains_key(backup_of(path)));
    } else {
        assert(backed == fs);
    }
    assert(apply_ops(fs, ops, 3) == backed.insert(path, content));
}

/// `op` names `p` as a path it reads or changes.
pub open spec fn touches(op: OpView, p: Seq<char>) -> bool {
    match op {
        OpView::CreateParentDirs(_) => false,
        OpView::Backup(from, to, _) => from == p || to == p,
        OpView::Write(path, _) => path == p,
    }
}

/// The file at `p` is the same in `a` and `b`, or absent from both.
pub open spec fn same_at(a: Map<Seq<char>, Seq<char>>, b: Map<Seq<char>, Seq<char>>, p: Seq<char>) -> bool {
    &&& a.contains_key(p) == b.contains_key(p)
    &&& a.contains_key(p) ==> a[p] == b[p]
}

/// Writing `q` and backing it up leave `p` and its backup alone.
pub open spec fn clear_of(q: Seq<char>, p: Seq<char>) -> bool {
    &&& q != p
    &&& backup_of(q) != p
    &&& q != backup_of(p)
}

proof fn lemma_untouched_range(
    fs: Map<Seq<char>, Seq<char>>,
    ops: Seq<OpView>,
    p: Seq<char>,
    lo: int,
    n: int,
)
    requires
        0 <= lo <= n <= ops.len(),
        forall|k: int| lo <= k < n ==> !touches(#[trigger] ops[k], p),
    ensures
        same_at(apply_ops(fs, ops, n), apply_ops(fs, ops, lo), p),
    decreases n - lo,
{
    if lo < n {
        lemma_untouched_range(fs, ops, p, lo, n - 1);
        assert(!touches(ops[n - 1], p));
    }
}

proof fn lemma_backup_injective(a: Seq<char>, b: Seq<char>)
    requires
        backup_of(a) == backup_of(b),
    ensures
        a == b,
{
    assert(backup_of(a).len() == a.len() + BACKUP_SUFFIX@.len());
    assert(backup_of(b).len() == b.len() + BACKUP_SUFFIX@.len());
    assert(a.len() == b.len());
    assert forall|k: int| 0 <= k < a.len() implies a[k] == b[k] by {
        assert(backup_of(a)[k] == a[k]);
        assert(backup_of(b)[k] == b[k]);
    }
    assert(a =~= b);
}

proof fn lemma_legacy_ops_shape(ls: Seq<Seq<char>>, n: int)
    requires
        0 <= n <= ls.len(),
    ensures
        legacy_ops(ls, n).len() == n,
        forall|k: int|
            0 <= k < n ==> #[trigger] legacy_ops(ls, n)[k] == OpView::Backup(
                ls[k],
                backup_of(ls[k]),
                false,
            ),
    decreases n,
{
    if n > 0 {
        lemma_legacy_ops_shape(ls, n - 1);
    }
}

proof fn lemma_file_ops_shape(files: Seq<(Seq<char>, Seq<char>)>, n: int)
    requires
        0 <= n <= files.len(),
    ensures
        file_ops(files, n).len() == 3 * n,
        forall|j: int, t: int|
            0 <= j < n && 0 <= t < 3 ==> #[trigger] file_ops(files, n)[3 * j + t] == write_ops(
                files[j].0,
                files[j].1,
            )[t],
    decreases n,
{
    if n > 0 {
        lemma_file_ops_shape(files, n - 1);
        let prev = file_ops(files, n - 1);
        let cur = file_ops(files, n);
        assert forall|j: int, t: int| 0 <= j < n && 0 <= t < 3 implies #[trigger] cur[3 * j + t]
            == write_ops(files[j].0, files[j].1)[t] by {
            if j < n - 1 {
                assert(cur[3 * j + t] == prev[3 * j + t]);
            } else {
                assert(cur[3 * j + t] == write_ops(files[n - 1].0, files[n - 1].1)[t]);
            }
        }
    }
}

/// Putting an artifact on disk never loses a file it replaces: where a file
/// with contents `c` stands at the path of the artifact's file `i`, and the
/// artifact's other paths and legacy files are clear of that path and its
/// backup, then after the whole plan the backup holds `c` and the path holds
/// the new contents.
pub proof fn lemma_artifact_write_keeps_backup(
    fs: Map<Seq<char>, Seq<char>>,
    legacy: Seq<Seq<char>>,
    files: Seq<(Seq<char>, Seq<char>)>,
    i: int,
)
    requires
        0 <= i < files.len(),
        fs.contains_key(files[i].0),
        forall|k: int| 0 <= k < legacy.len() ==> clear_of(#[trigger] legacy[k], files[i].0),
        forall|j: int| 0 <= j < files.len() && j != i ==> clear_of(#[trigger] files[j].0, files[i].0),
    ensures
        ({
            let plan = plan_spec(legacy, files);
            let after = apply_ops(fs, plan, plan.len() as int);
            &&& after.contains_key(files[i].0)
            &&& after[files[i].0] == files[i].1
            &&& after.contains_key(backup_of(files[i].0))
            &&& after[backup_of(files[i].0)] == fs[files[i].0]
        }),
{
    let p = files[i].0;
    let b = backup_of(p);
    let plan = plan_spec(legacy, files);
    let nl = legacy.len() as int;
    let nf = files.len() as int;
    lemma_legacy_ops_shape(legacy, nl);
    lemma_file_ops_shape(files, nf);
    lemma_suffix_differs(p);
    assert(plan.len() == nl + 3 * nf);
    assert forall|k: int| 0 <= k < plan.len() && !(nl + 3 * i <= k < nl + 3 * i + 3) implies !touches(
        #[trigger] plan[k],
        p,
    ) && !touches(plan[k], b) by {
        if k < nl {
            assert(plan[k] == legacy_ops(legacy, nl)[k]);
            assert(clear_of(legacy[k], p));
            if backup_of(legacy[k]) == b {
                lemma_backup_injective(legacy[k], p);
            }
        } else {
            let j = (k - nl) / 3;
            let t = (k - nl) % 3;
            assert(k - nl == 3 * j + t);
            assert(plan[k] == file_ops(files, nf)[3 * j + t]);
            assert(j != i);
            assert(clear_of(files[j].0, p));
            if backup_of(files[j].0) == b {
                lemma_backup_injective(files[j].0, p);
            }
        }
    }
    let w = nl + 3 * i;
    lemma_untouched_range(fs, plan, p, 0, w);
    lemma_untouched_range(fs, plan, b, 0, w);
    let before = apply_ops(fs, plan, w);
    assert(plan[w] == OpView::CreateParentDirs(p)) by {
        assert(plan[w] == file_ops(files, nf)[3 * i + 0]);
    }
    assert(plan[w + 1] == OpView::Backup(p, b, true)) by {
        assert(plan[w + 1] == file_ops(files, nf)[3 * i + 1]);
    }
    assert(plan[w + 2] == OpView::Write(p, files[i].1)) by {
        assert(plan[w + 2] == file_ops(files, nf)[3 * i + 2]);
    }
    assert(apply_ops(fs, plan, w + 1) == before);
    assert(before.contains_key(p) && before[p] == fs[p]);
    let backed = apply_ops(fs, plan, w + 2);
    assert(backed == before.remove(p).insert(b, before[p]));
    let written = apply_ops(fs, plan, w + 3);
    assert(written == backed.insert(p, files[i].1));
    assert(written.contains_key(b) && written[b] == fs[p]);
    lemma_untouched_range(fs, plan, p, w + 3, plan.len() as int);
    lemma_untouched_range(fs, plan, b, w + 3, plan.len() as int);
}

/// Length of what `join_path` puts before the relative part.
pub open spec fn root_prefix_len(root: Seq<char>) -> int {
    if root.len() == 0 {
        0
    } else if root.last() == '/' {
        root.len() as int
    } else {
        root.len() as int + 1
    }
}

proof fn lemma_join_shape(root: Seq<char>, rel: Seq<char>)
    ensures
        join_path(root, rel).len() == root_prefix_len(root) + rel.len(),
        forall|k: int|
            0 <= k < rel.len() ==> #[trigger] join_path(root, rel)[root_prefix_len(root) + k]
                == rel[k],
{
    if root.len() > 0 && root.last() != '/' {
        assert((root + seq!['/']).len() == root.len() + 1);
    }
}

proof fn lemma_outputs_paths(
    outs: Seq<OutputView>,
    root: Seq<char>,
    bs: Seq<(Seq<char>, Seq<char>)>,
    fs: Seq<(Seq<char>, bool)>,
    n: int,
)
    requires
        0 <= n <= outs.len(),
    ensures
        render_outputs(outs, root, bs, fs, n) matches Ok(files) ==> files.len() == n && forall|i: int|
            0 <= i < n ==> #[trigger] files[i].0 == join_path(root, outs[i].0),
    decreases n,
{
    if n > 0 {
        lemma_outputs_paths(outs, root, bs, fs, n - 1);
    }
}

/// Two paths under one root whose relative parts differ in length differ.
proof fn lemma_join_lengths_differ(root: Seq<char>, a: Seq<char>, b: Seq<char>, extra: Seq<char>)
    requires
        a.len() != b.len() + extra.len(),
    ensures
        join_path(root, a) != join_path(root, b) + extra,
{
    lemma_join_shape(root, a);
    lemma_join_shape(root, b);
}

/// Every generated artifact can be written without losing a file it
/// replaces: where a file with contents `c` stands at the path of one of its
/// files, after the artifact's whole plan runs, the backup of that path
/// holds `c` and the path holds the freshly rendered text.
pub proof fn lemma_generated_artifact_keeps_backups(
    kind: ArtifactKind,
    family: ProjectType,
    doc: Seq<(Seq<char>, FieldView)>,
    root: Seq<char>,
    fs: Map<Seq<char>, Seq<char>>,
    i: int,
)
    requires
        generate_spec(kind, family, doc, root) is Ok,
        0 <= i < generate_spec(kind, family, doc, root)->Ok_0.len(),
        fs.contains_key(generate_spec(kind, family, doc, root)->Ok_0[i].0),
    ensures
        ({
            let files = generate_spec(kind, family, doc, root)->Ok_0;
            let plan = plan_spec(legacy_paths(kind, root), files);
            let after = apply_ops(fs, plan, plan.len() as int);
            &&& after.contains_key(files[i].0)
            &&& after[files[i].0] == files[i].1
            &&& after.contains_key(backup_of(files[i].0))
            &&& after[backup_of(files[i].0)] == fs[files[i].0]
        }),
{
    let files = generate_spec(kind, family, doc, root)->Ok_0;
    let outs = artifact_outputs(kind, family);
    let reqs = crate::generator::artifact_fields(kind, family);
    lemma_outputs_paths(
        outs,
        root,
        bindings_upto(doc, reqs, reqs.len() as int),
        flags_upto(doc, reqs, reqs.len() as int),
        outs.len() as int,
    );
    let legacy = legacy_paths(kind, root);
    let sfx = BACKUP_SUFFIX@;
    reveal_strlit(".backup");
    assert(sfx.len() == 7);
    let empty = Seq::<char>::empty();
    if kind == ArtifactKind::ComposeFile {
        reveal_strlit("compose.yaml");
        reveal_strlit("docker-compose.yaml");
        reveal_strlit("docker-compose.yml");
        let p = join_path(root, COMPOSE_PATH@);
        assert(files[i].0 == p);
        assert forall|k: int| 0 <= k < legacy.len() implies clear_of(#[trigger] legacy[k], p) by {
            let rel = if k == 0 { LEGACY_COMPOSE_YAML@ } else { LEGACY_COMPOSE_YML@ };
            assert(legacy[k] == join_path(root, rel));
            lemma_join_lengths_differ(root, rel, COMPOSE_PATH@, empty);
            assert(p + empty =~= p);
            assert(backup_of(legacy[k]) == join_path(root, rel) + sfx);
            lemma_join_shape(root, rel);
            lemma_join_shape(root, COMPOSE_PATH@);
            assert(backup_of(legacy[k]).len() != p.len());
            if k == 0 {
                let at = root_prefix_len(root);
                assert(legacy[k][at + 0] == 'd');
                assert(backup_of(p)[at + 0] == p[at + 0]);
                assert(p[at + 0] == 'c');
            } else {
                lemma_join_lengths_differ(root, rel, COMPOSE_PATH@, sfx);
            }
        }
    } else if kind == ArtifactKind::DeploymentPlaybook {
        reveal_strlit("ansible/hosts.yml");
        reveal_strlit("ansible/ansible-deploy.yml");
        let inventory = join_path(root, INVENTORY_PATH@);
        let playbook = join_path(root, PLAYBOOK_PATH@);
        lemma_join_shape(root, INVENTORY_PATH@);
        lemma_join_shape(root, PLAYBOOK_PATH@);
        assert(files[0].0 == inventory && files[1].0 == playbook);
        assert(backup_of(inventory).len() == inventory.len() + 7);
        assert(backup_of(playbook).len() == playbook.len() + 7);
        assert(clear_of(inventory, playbook));
        assert(clear_of(playbook, inventory));
    }
    assert forall|j: int| 0 <= j < files.len() && j != i implies clear_of(#[trigger] files[j].0, files[i].0)
        by {
        assert(kind == ArtifactKind::DeploymentPlaybook);
    }
    lemma_artifact_write_keeps_backup(fs, legacy, files, i);
}

} // verus!
