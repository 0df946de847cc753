use fileforge::authoring::{AngularConfig, DotnetConfig};
use fileforge::config::{ConfigDocument, ConfigError, FieldValue, ProjectType};
use fileforge::generator::{
    artifact_requirements, copy_ansible_files, generate, generate_ansible_files_for_angular,
    generate_compose_file_for_angular, generate_compose_file_for_dotnet, generate_dockerfile_for_angular,
    generate_dockerfile_for_dotnet, generate_gitlab_ci_file_for_angular, generate_gitlab_cil_file_for_dotnet,
    generate_nginx_file_angular, ArtifactKind, GenerationCause,
};

fn dotnet(healthcheck: bool) -> ConfigDocument {
    DotnetConfig {
        project_type: "dotnet".to_string(),
        root_namespace: "Acme.Api".to_string(),
        dotnet_version: "9.0".to_string(),
        service_name: "api".to_string(),
        image_name: "api-img".to_string(),
        container_name: "api-c".to_string(),
        port: 8080,
        enable_healthcheck: healthcheck,
        project_location: "/etc/www".to_string(),
        project_directory: "acme-api".to_string(),
    }
    .to_document()
}

fn angular() -> ConfigDocument {
    AngularConfig {
        project_type: "angular".to_string(),
        node_version: "20.10.0".to_string(),
        service_name: "web".to_string(),
        image_name: "web-img".to_string(),
        container_name: "web-c".to_string(),
        port: 4200,
        project_location: "/srv".to_string(),
        project_directory: "shop".to_string(),
    }
    .to_document()
}

fn without(doc: &ConfigDocument, key: &str) -> ConfigDocument {
    ConfigDocument { fields: doc.fields.iter().filter(|f| f.key != key).cloned().collect() }
}

const KINDS: [ArtifactKind; 5] = [
    ArtifactKind::BuildFile,
    ArtifactKind::ComposeFile,
    ArtifactKind::CiPipeline,
    ArtifactKind::DeploymentPlaybook,
    ArtifactKind::ReverseProxyConfig,
];

const HEALTHCHECK: &str = "    healthcheck:
      test: curl --fail http://localhost:5000/health || exit 1
      interval: 40s
      timeout: 30s
      retries: 3
      start_period: 60s
";

#[test]
fn example_compose_has_service_port_and_healthcheck() {
    let a = generate_compose_file_for_dotnet(&dotnet(true), "/out").unwrap();
    assert_eq!(a.files.len(), 1);
    assert_eq!(a.files[0].path, "/out/compose.yaml");
    let c = &a.files[0].content;
    assert!(c.contains("services:\n  api:\n"));
    assert!(c.contains("image: \"api-img\""));
    assert!(c.contains("container_name: \"api-c\""));
    assert!(c.contains("restart: unless-stopped"));
    assert!(c.contains("context: ."));
    assert!(c.contains("- '8080:5000'"));
    assert!(c.contains(HEALTHCHECK));
}

#[test]
fn example_pipeline_has_project_path() {
    let a = generate_gitlab_cil_file_for_dotnet(&dotnet(true), "/out").unwrap();
    assert_eq!(a.files[0].path, "/out/.gitlab-ci.yml");
    let c = &a.files[0].content;
    assert!(c.contains("PROJECT_PATH: \"/etc/www/acme-api\""));
    assert!(c.contains("docker compose build --no-cache"));
    assert!(c.contains("aspnet:9.0"));
}

#[test]
fn compose_without_healthcheck_has_no_stanza() {
    let a = generate_compose_file_for_dotnet(&dotnet(false), "/out").unwrap();
    let c = &a.files[0].content;
    assert!(!c.contains("healthcheck"));
    assert!(!c.contains("interval"));
    assert!(!c.contains("start_period"));
    assert!(c.contains("- '8080:5000'\n    networks:\n      - api-network\n"));
}

#[test]
fn compose_with_healthcheck_keeps_the_constants() {
    let c = generate_compose_file_for_dotnet(&dotnet(true), "").unwrap().files[0].content.clone();
    assert!(c.contains("interval: 40s"));
    assert!(c.contains("timeout: 30s"));
    assert!(c.contains("retries: 3"));
    assert!(c.contains("start_period: 60s"));
}

#[test]
fn compose_lists_legacy_files_to_back_up() {
    let a = generate_compose_file_for_dotnet(&dotnet(true), "out/").unwrap();
    assert_eq!(a.legacy_files, vec!["out/docker-compose.yaml".to_string(), "out/docker-compose.yml".to_string()]);
    assert_eq!(a.files[0].path, "out/compose.yaml");
    let b = generate_dockerfile_for_dotnet(&dotnet(true), "out").unwrap();
    assert!(b.legacy_files.is_empty());
}

#[test]
fn dotnet_dockerfile_has_four_stages() {
    let a = generate_dockerfile_for_dotnet(&dotnet(true), "").unwrap();
    assert_eq!(a.files[0].path, "Dockerfile");
    let c = &a.files[0].content;
    assert!(c.contains("aspnet:9.0 AS base"));
    assert!(c.contains("sdk:9.0 AS build"));
    assert!(c.contains("FROM build AS publish"));
    assert!(c.contains("FROM base AS final"));
    assert!(c.contains("COPY [\"acme-api.csproj\", \"./\"]"));
    assert!(c.contains("ENTRYPOINT [\"dotnet\", \"acme-api.dll\"]"));
    assert!(c.contains("ENV TZ="));
}

#[test]
fn angular_dockerfile_uses_node_version() {
    let c = generate_dockerfile_for_angular(&angular(), "").unwrap().files[0].content.clone();
    assert!(c.contains("FROM node:20.10.0-alpine AS build"));
    assert!(c.contains("FROM nginx:"));
}

#[test]
fn angular_compose_maps_port_80() {
    let c = generate_compose_file_for_angular(&angular(), "").unwrap().files[0].content.clone();
    assert!(c.contains("  web:\n"));
    assert!(c.contains("- '4200:80'"));
    assert!(!c.contains("healthcheck"));
}

#[test]
fn angular_pipeline_has_project_path() {
    let c = generate_gitlab_ci_file_for_angular(&angular(), "").unwrap().files[0].content.clone();
    assert!(c.contains("PROJECT_PATH: \"/srv/shop\""));
}

#[test]
fn playbook_writes_inventory_and_playbook() {
    let a = generate_ansible_files_for_angular(&angular(), "root").unwrap();
    assert_eq!(a.files.len(), 2);
    assert_eq!(a.files[0].path, "root/ansible/hosts.yml");
    assert_eq!(a.files[1].path, "root/ansible/ansible-deploy.yml");
    assert!(a.files[1].content.contains("path: \"/srv/shop\"\n        state: absent"));
    assert!(a.files[1].content.contains("chdir: \"/srv/shop\""));
    let d = copy_ansible_files(&dotnet(true), "root").unwrap();
    assert!(d.files[1].content.contains("dest: \"/etc/www\""));
}

#[test]
fn nginx_config_is_static() {
    let a = generate_nginx_file_angular(&ConfigDocument { fields: Vec::new() }, "").unwrap();
    assert_eq!(a.files[0].path, "nginx.conf");
    assert!(a.files[0].content.contains("try_files $uri $uri/ /index.html;"));
    assert!(a.files[0].content.contains("error_page   500 502 503 504  /50x.html;"));
}

#[test]
fn no_artifact_holds_a_placeholder() {
    for kind in KINDS {
        for (family, doc) in [(ProjectType::Dotnet, dotnet(true)), (ProjectType::Dotnet, dotnet(false)), (ProjectType::Angular, angular())] {
            let a = generate(kind, family, &doc, "/out").unwrap();
            for f in &a.files {
                assert!(!f.content.contains("{{"), "{:?} {}", kind, f.path);
            }
        }
    }
}

#[test]
fn omitting_any_required_field_fails_with_missing_field() {
    for kind in KINDS {
        for (family, doc) in [(ProjectType::Dotnet, dotnet(true)), (ProjectType::Angular, angular())] {
            for req in artifact_requirements(kind, family) {
                let r = generate(kind, family, &without(&doc, req.name), "/out");
                let e = r.unwrap_err();
                assert_eq!(e.artifact, kind);
                assert_eq!(e.cause, GenerationCause::Config(ConfigError::MissingField(req.name.to_string())));
            }
        }
    }
}

#[test]
fn wrongly_typed_field_fails_with_missing_field() {
    let mut doc = dotnet(true);
    for f in doc.fields.iter_mut() {
        if f.key == "enable_healthcheck" {
            f.value = FieldValue::Text("yes".to_string());
        }
    }
    let e = generate_compose_file_for_dotnet(&doc, "").unwrap_err();
    assert_eq!(e.cause, GenerationCause::Config(ConfigError::MissingField("enable_healthcheck".to_string())));
}

#[test]
fn generation_is_repeatable() {
    let first = generate(ArtifactKind::ComposeFile, ProjectType::Dotnet, &dotnet(true), "/out");
    let second = generate(ArtifactKind::ComposeFile, ProjectType::Dotnet, &dotnet(true), "/out");
    assert_eq!(first, second);
}

#[test]
fn generators_read_only_their_fields() {
    let doc = without(&without(&dotnet(true), "service_name"), "port");
    assert!(generate_dockerfile_for_dotnet(&doc, "").is_ok());
    assert!(generate_gitlab_cil_file_for_dotnet(&doc, "").is_ok());
}

#[test]
fn port_is_written_in_decimal() {
    for (port, text) in [(0u64, "'0:5000'"), (7, "'7:5000'"), (10, "'10:5000'"), (65535, "'65535:5000'")] {
        let mut doc = dotnet(false);
        for f in doc.fields.iter_mut() {
            if f.key == "port" {
                f.value = FieldValue::Number(port);
            }
        }
        let c = generate_compose_file_for_dotnet(&doc, "").unwrap().files[0].content.clone();
        assert!(c.contains(text), "{}", c);
    }
}

#[test]
fn example_configuration_from_json_end_to_end() {
    let text = r#"{"project_type": "dotnet", "service_name": "api", "image_name": "api-img",
        "container_name": "api-c", "port": 8080, "enable_healthcheck": true, "dotnet_version": "9.0",
        "root_namespace": "Acme.Api", "project_location": "/etc/www", "project_directory": "acme-api"}"#;
    let config = fileforge::config::parse_config(text).unwrap();
    assert_eq!(config.project_type, ProjectType::Dotnet);
    let compose = generate(ArtifactKind::ComposeFile, config.project_type, &config.record, ".").unwrap();
    let c = &compose.files[0].content;
    assert!(c.starts_with("services:\n  api:\n"));
    assert!(c.contains("- '8080:5000'"));
    assert!(c.contains(HEALTHCHECK));
    let ci = generate(ArtifactKind::CiPipeline, config.project_type, &config.record, ".").unwrap();
    assert!(ci.files[0].content.contains("  PROJECT_PATH: \"/etc/www/acme-api\"\n"));
    assert_eq!(ci.files[0].path, "./.gitlab-ci.yml");
}
