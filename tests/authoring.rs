use fileforge::authoring::{
    answer_or_default, default_name, dotnet_version_of, parse_port, parse_yes_no, root_namespace_of, text_between,
};

const CSPROJ: &str = "<Project Sdk=\"Microsoft.NET.Sdk.Web\">\n  <PropertyGroup>\n    <TargetFramework>net9.0</TargetFramework>\n    <RootNamespace> Acme_Api </RootNamespace>\n  </PropertyGroup>\n</Project>\n";

#[test]
fn reads_root_namespace() {
    assert_eq!(root_namespace_of(CSPROJ), Some("Acme_Api".to_string()));
}

#[test]
fn reads_dotnet_version() {
    assert_eq!(dotnet_version_of(CSPROJ), Some("9.0".to_string()));
}

#[test]
fn missing_tags_give_none() {
    assert_eq!(root_namespace_of("<Project></Project>"), None);
    assert_eq!(root_namespace_of("<RootNamespace>Acme"), None);
    assert_eq!(dotnet_version_of("<TargetFramework>netstandard2.0"), None);
}

#[test]
fn closing_tag_must_follow_opening() {
    assert_eq!(text_between("]x[a]y[", "[", "]"), Some("a".to_string()));
}

#[test]
fn default_name_is_hyphenated_lower_case() {
    assert_eq!(default_name("Acme_Web_Api"), "acme-web-api");
    assert_eq!(default_name(""), "");
}

#[test]
fn blank_answer_takes_default() {
    assert_eq!(answer_or_default("  \n", "/etc/www"), "/etc/www");
    assert_eq!(answer_or_default(" api \n", "/etc/www"), "api");
}

#[test]
fn ports_parse_like_u16() {
    assert_eq!(parse_port("8080\n"), Some(8080));
    assert_eq!(parse_port("+80"), Some(80));
    assert_eq!(parse_port("0"), Some(0));
    assert_eq!(parse_port("65535"), Some(65535));
    assert_eq!(parse_port("65536"), None);
    assert_eq!(parse_port("99999999999"), None);
    assert_eq!(parse_port(""), None);
    assert_eq!(parse_port("+"), None);
    assert_eq!(parse_port("-1"), None);
    assert_eq!(parse_port("8o"), None);
}

#[test]
fn yes_no_answers() {
    assert_eq!(parse_yes_no("YES"), Some(true));
    assert_eq!(parse_yes_no(" no "), Some(false));
    assert_eq!(parse_yes_no(""), Some(false));
    assert_eq!(parse_yes_no("maybe"), None);
}
