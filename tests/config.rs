use fileforge::authoring::{AngularConfig, Config, DotnetConfig};
use fileforge::config::{
    check_config, load_config, load_config_relaxed, parse_config, with_legacy_defaults, ConfigDocument, ConfigError, ConfigField, FieldValue, ProjectType,
};

const EXAMPLE: &str = r#"{"project_type": "dotnet", "service_name": "api", "image_name": "api-img",
"container_name": "api-c", "port": 8080, "enable_healthcheck": true, "dotnet_version": "9.0",
"root_namespace": "Acme.Api", "project_location": "/etc/www", "project_directory": "acme-api"}"#;

fn dotnet() -> DotnetConfig {
    DotnetConfig {
        project_type: "dotnet".to_string(),
        root_namespace: "Acme.Api".to_string(),
        dotnet_version: "9.0".to_string(),
        service_name: "api".to_string(),
        image_name: "api-img".to_string(),
        container_name: "api-c".to_string(),
        port: 8080,
        enable_healthcheck: true,
        project_location: "/etc/www".to_string(),
        project_directory: "acme-api".to_string(),
    }
}

fn without(doc: &ConfigDocument, key: &str) -> ConfigDocument {
    ConfigDocument { fields: doc.fields.iter().filter(|f| f.key != key).cloned().collect() }
}

fn with(doc: &ConfigDocument, key: &str, value: FieldValue) -> ConfigDocument {
    let mut fields: Vec<ConfigField> = vec![ConfigField { key: key.to_string(), value }];
    fields.extend(without(doc, key).fields);
    ConfigDocument { fields }
}

fn missing(name: &str) -> ConfigError {
    ConfigError::MissingField(name.to_string())
}

#[test]
fn parses_the_example_configuration() {
    let c = parse_config(EXAMPLE).unwrap();
    assert_eq!(c.project_type, ProjectType::Dotnet);
    let port = c.record.fields.iter().find(|f| f.key == "port").unwrap();
    assert_eq!(port.value, FieldValue::Number(8080));
    let hc = c.record.fields.iter().find(|f| f.key == "enable_healthcheck").unwrap();
    assert_eq!(hc.value, FieldValue::Flag(true));
    let name = c.record.fields.iter().find(|f| f.key == "service_name").unwrap();
    assert_eq!(name.value, FieldValue::Text("api".to_string()));
}

#[test]
fn absent_file_is_not_found() {
    assert_eq!(load_config(None), Err(ConfigError::NotFound));
}

#[test]
fn load_reads_present_text() {
    assert_eq!(load_config(Some(EXAMPLE)).unwrap().project_type, ProjectType::Dotnet);
}

#[test]
fn malformed_json_is_invalid_format() {
    assert_eq!(parse_config("{\"project_type\": "), Err(ConfigError::InvalidFormat));
}

#[test]
fn json_that_is_not_an_object_is_invalid_format() {
    assert_eq!(parse_config("[1, 2, 3]"), Err(ConfigError::InvalidFormat));
}

#[test]
fn missing_project_type_is_a_missing_field() {
    assert_eq!(parse_config("{}"), Err(missing("project_type")));
}

#[test]
fn unknown_project_type_is_invalid_format() {
    assert_eq!(parse_config(r#"{"project_type": "rails"}"#), Err(ConfigError::InvalidFormat));
}

#[test]
fn every_family_field_is_required() {
    let doc = dotnet().to_document();
    for key in [
        "service_name", "image_name", "container_name", "port", "project_location", "project_directory",
        "root_namespace", "dotnet_version", "enable_healthcheck",
    ] {
        assert_eq!(check_config(&without(&doc, key)), Err(missing(key)), "{}", key);
    }
}

#[test]
fn first_missing_field_in_order_is_reported() {
    let doc = without(&without(&dotnet().to_document(), "dotnet_version"), "image_name");
    assert_eq!(check_config(&doc), Err(missing("image_name")));
}

#[test]
fn blank_text_counts_as_missing() {
    let doc = with(&dotnet().to_document(), "service_name", FieldValue::Text(" \t ".to_string()));
    assert_eq!(check_config(&doc), Err(missing("service_name")));
}

#[test]
fn non_numeric_port_counts_as_missing() {
    let doc = with(&dotnet().to_document(), "port", FieldValue::Text("8080".to_string()));
    assert_eq!(check_config(&doc), Err(missing("port")));
}

#[test]
fn port_above_sixteen_bits_counts_as_missing() {
    let doc = with(&dotnet().to_document(), "port", FieldValue::Number(65536));
    assert_eq!(check_config(&doc), Err(missing("port")));
    let doc = with(&dotnet().to_document(), "port", FieldValue::Number(65535));
    assert_eq!(check_config(&doc), Ok(ProjectType::Dotnet));
}

#[test]
fn negative_port_in_json_counts_as_missing() {
    let text = EXAMPLE.replace("8080", "-1");
    assert_eq!(parse_config(&text), Err(missing("port")));
}

#[test]
fn trailing_separator_in_location_is_invalid_format() {
    let doc = with(&dotnet().to_document(), "project_location", FieldValue::Text("/etc/www/".to_string()));
    assert_eq!(check_config(&doc), Err(ConfigError::InvalidFormat));
}

#[test]
fn angular_configuration_checks() {
    let a = AngularConfig {
        project_type: "angular".to_string(),
        node_version: "20.10.0".to_string(),
        service_name: "web".to_string(),
        image_name: "web-img".to_string(),
        container_name: "web-c".to_string(),
        port: 80,
        project_location: "/etc/www".to_string(),
        project_directory: "web".to_string(),
    };
    let doc = a.to_document();
    assert_eq!(check_config(&doc), Ok(ProjectType::Angular));
    assert_eq!(check_config(&without(&doc, "node_version")), Err(missing("node_version")));
}

#[test]
fn older_layout_converts_to_dotnet() {
    let old = Config {
        root_namespace: "Acme.Api".to_string(),
        dotnet_version: "9.0".to_string(),
        service_name: "api".to_string(),
        image_name: "api-img".to_string(),
        container_name: "api-c".to_string(),
        port: 8080,
        enable_healthcheck: true,
        project_location: "/etc/www".to_string(),
        project_directory: "acme-api".to_string(),
    };
    assert_eq!(old.to_dotnet(), dotnet());
}

#[test]
fn relaxed_mode_fills_missing_defaults() {
    let doc = without(&without(&dotnet().to_document(), "port"), "service_name");
    let relaxed = with_legacy_defaults(&doc);
    assert_eq!(check_config(&relaxed), Ok(ProjectType::Dotnet));
    let find = |key: &str| relaxed.fields.iter().find(|f| f.key == key).unwrap().value.clone();
    assert_eq!(find("port"), FieldValue::Number(5000));
    assert_eq!(find("service_name"), FieldValue::Text("default_service".to_string()));
    assert_eq!(find("image_name"), FieldValue::Text("api-img".to_string()));
    let text = r#"{"project_type": "dotnet", "port": "oops", "root_namespace": "A", "dotnet_version": "9.0",
        "project_location": "/etc/www", "project_directory": "a"}"#;
    let c = load_config_relaxed(Some(text)).unwrap();
    let port = c.record.fields.iter().find(|f| f.key == "port").unwrap();
    assert_eq!(port.value, FieldValue::Number(5000));
    assert_eq!(load_config_relaxed(None), Err(ConfigError::NotFound));
    assert_eq!(parse_config(text), Err(missing("service_name")));
}

#[test]
fn relaxed_mode_still_needs_other_fields() {
    let text = r#"{"project_type": "dotnet", "root_namespace": "A", "project_location": "/etc/www", "project_directory": "a"}"#;
    assert_eq!(load_config_relaxed(Some(text)), Err(missing("dotnet_version")));
}
