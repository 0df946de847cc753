use std::collections::HashMap;

use fileforge::authoring::DotnetConfig;
use fileforge::generator::generate_compose_file_for_dotnet;
use fileforge::writer::{backup_path, classify_failure, plan_artifact, plan_write, FsOp, WriteError};

/// Applies a plan to files held in memory, each operation succeeding.
fn apply(files: &mut HashMap<String, String>, ops: &[FsOp]) {
    for op in ops {
        match op {
            FsOp::CreateParentDirs { .. } => {}
            FsOp::Backup { from, to, .. } => {
                if let Some(c) = files.remove(from) {
                    files.insert(to.clone(), c);
                }
            }
            FsOp::Write { path, content } => {
                files.insert(path.clone(), content.clone());
            }
        }
    }
}

#[test]
fn backup_path_appends_suffix() {
    assert_eq!(backup_path("out/compose.yaml"), "out/compose.yaml.backup");
}

#[test]
fn write_plan_backs_up_before_writing() {
    let ops = plan_write(&"a/b.txt".to_string(), &"new".to_string());
    assert_eq!(
        ops,
        vec![
            FsOp::CreateParentDirs { path: "a/b.txt".to_string() },
            FsOp::Backup { from: "a/b.txt".to_string(), to: "a/b.txt.backup".to_string(), required: true },
            FsOp::Write { path: "a/b.txt".to_string(), content: "new".to_string() },
        ]
    );
}

#[test]
fn existing_file_survives_as_backup() {
    let mut files = HashMap::new();
    files.insert("a/b.txt".to_string(), "old".to_string());
    files.insert("a/b.txt.backup".to_string(), "older".to_string());
    apply(&mut files, &plan_write(&"a/b.txt".to_string(), &"new".to_string()));
    assert_eq!(files["a/b.txt"], "new");
    assert_eq!(files["a/b.txt.backup"], "old");
}

#[test]
fn fresh_write_makes_no_backup() {
    let mut files = HashMap::new();
    apply(&mut files, &plan_write(&"x".to_string(), &"new".to_string()));
    assert_eq!(files.len(), 1);
    assert_eq!(files["x"], "new");
}

#[test]
fn compose_plan_backs_up_legacy_and_target() {
    let doc = DotnetConfig {
        project_type: "dotnet".to_string(),
        root_namespace: "Acme.Api".to_string(),
        dotnet_version: "9.0".to_string(),
        service_name: "api".to_string(),
        image_name: "api-img".to_string(),
        container_name: "api-c".to_string(),
        port: 8080,
        enable_healthcheck: true,
        project_location: "/etc/www".to_string(),
        project_directory: "acme-api".to_string(),
    }
    .to_document();
    let artifact = generate_compose_file_for_dotnet(&doc, "out").unwrap();
    let ops = plan_artifact(&artifact);
    assert_eq!(ops.len(), 5);
    assert_eq!(
        ops[0],
        FsOp::Backup {
            from: "out/docker-compose.yaml".to_string(),
            to: "out/docker-compose.yaml.backup".to_string(),
            required: false
        }
    );
    let mut files = HashMap::new();
    files.insert("out/compose.yaml".to_string(), "C".to_string());
    files.insert("out/docker-compose.yml".to_string(), "L".to_string());
    apply(&mut files, &ops);
    assert_eq!(files["out/compose.yaml.backup"], "C");
    assert_eq!(files["out/compose.yaml"], artifact.files[0].content);
    assert_eq!(files["out/docker-compose.yml.backup"], "L");
    assert!(!files.contains_key("out/docker-compose.yml"));
}

#[test]
fn failures_are_classified() {
    let backup = FsOp::Backup { from: "a".to_string(), to: "a.backup".to_string(), required: true };
    let write = FsOp::Write { path: "a".to_string(), content: String::new() };
    assert_eq!(classify_failure(&backup, true), WriteError::BackupFailed);
    assert_eq!(classify_failure(&write, true), WriteError::Permission);
    assert_eq!(classify_failure(&write, false), WriteError::Filesystem);
}
