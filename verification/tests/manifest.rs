use cch24::manifest::{
    contains_magic_keyword, exact_format, extract_valid_orders, format_of, handle_manifest,
    has_valid_rust_version, is_valid_package, manifest_outcome, orders_to_string,
    parse_as_unified_value, top_level_ok, Format, ManifestResponse, ValidOrder,
};
use cch24::value::UnifiedValue;

const TOML_GIFTS: &str = r#"[package]
name = "not-a-gift-order"
authors = ["Not Santa"]
keywords = ["Christmas 2024"]

[[package.metadata.orders]]
item = "Toy car"
quantity = 2

[[package.metadata.orders]]
item = "Lego brick"
quantity = 230
"#;

fn orders_body(response: ManifestResponse) -> String {
    match response {
        ManifestResponse::Orders(body) => body,
        _ => panic!("expected a list of orders"),
    }
}

#[test]
fn toml_orders_listed() {
    let body = orders_body(handle_manifest(TOML_GIFTS, "application/toml"));
    assert_eq!(body, "Toy car: 2\nLego brick: 230");
}

#[test]
fn media_type_case_ignored() {
    let body = orders_body(handle_manifest(TOML_GIFTS, "Application/TOML"));
    assert_eq!(body, "Toy car: 2\nLego brick: 230");
    assert_eq!(format_of("APPLICATION/json"), Some(Format::Json));
    assert_eq!(format_of("application/yml"), None);
}

#[test]
fn unsupported_media_type() {
    assert!(matches!(handle_manifest(TOML_GIFTS, "text/html"), ManifestResponse::UnsupportedMediaType));
    assert!(matches!(handle_manifest(TOML_GIFTS, ""), ManifestResponse::UnsupportedMediaType));
}

#[test]
fn invalid_orders_ignored() {
    let toml = r#"[package]
name = "mixed"
keywords = ["Christmas 2024"]

[[package.metadata.orders]]
item = "Coal"
quantity = "Hahaha"

[[package.metadata.orders]]
item = "Ball"
quantity = 1.5

[[package.metadata.orders]]
item = "Kite"
quantity = -1

[[package.metadata.orders]]
quantity = 4

[[package.metadata.orders]]
item = "Sled"
quantity = 4294967296

[[package.metadata.orders]]
item = "Doll"
quantity = 4294967295
"#;
    let body = orders_body(handle_manifest(toml, "application/toml"));
    assert_eq!(body, "Doll: 4294967295");
}

#[test]
fn no_valid_order_no_content() {
    let toml = r#"[package]
name = "coal-in-a-bowl"
authors = ["H.H. Grinch"]
keywords = ["Christmas 2024"]

[[package.metadata.orders]]
item = "Coal"
quantity = "Hahaha get rekt"
"#;
    assert!(matches!(handle_manifest(toml, "application/toml"), ManifestResponse::NoContent));
}

#[test]
fn no_orders_no_content() {
    let toml = "[package]\nname = \"empty\"\nkeywords = [\"Christmas 2024\"]\n";
    assert!(matches!(handle_manifest(toml, "application/toml"), ManifestResponse::NoContent));
}

#[test]
fn invalid_toml_manifest() {
    let toml = "[package]\nname = false\nkeywords = [\"Christmas 2024\"]\n";
    assert!(matches!(handle_manifest(toml, "application/toml"), ManifestResponse::InvalidManifest));
    assert!(matches!(handle_manifest("not = [toml", "application/toml"), ManifestResponse::InvalidManifest));
}

#[test]
fn magic_keyword_missing() {
    let toml = "[package]\nname = \"grass\"\nauthors = [\"A vegan cow\"]\nkeywords = [\"Moooooo\"]\n";
    assert!(matches!(handle_manifest(toml, "application/toml"), ManifestResponse::MagicKeywordMissing));
    let toml = "[package]\nname = \"grass\"\n";
    assert!(matches!(handle_manifest(toml, "application/toml"), ManifestResponse::MagicKeywordMissing));
}

#[test]
fn json_orders_listed() {
    let json = r#"{"package": {"name": "big-chungus-sleigh", "version": "2.0.24",
        "metadata": {"orders": [{"item": "Toy train", "quantity": 5}, {"item": "Toy car", "quantity": 3},
        {"item": "Socks", "quantity": 5.0}]},
        "rust-version": "1.69", "keywords": ["Christmas 2024"]}}"#;
    let body = orders_body(handle_manifest(json, "application/json"));
    assert_eq!(body, "Toy train: 5\nToy car: 3");
}

#[test]
fn json_without_name_invalid() {
    let json = r#"{"package": {"keywords": ["Christmas 2024"]}}"#;
    assert!(matches!(handle_manifest(json, "application/json"), ManifestResponse::InvalidManifest));
    assert!(matches!(handle_manifest("{", "application/json"), ManifestResponse::InvalidManifest));
}

#[test]
fn json_bad_rust_version_invalid() {
    let json = r#"{"package": {"name": "x", "rust-version": "one point eight", "keywords": ["Christmas 2024"]}}"#;
    assert!(matches!(handle_manifest(json, "application/json"), ManifestResponse::InvalidManifest));
    let json = r#"{"package": {"name": "x", "rust-version": 1.8, "keywords": ["Christmas 2024"]}}"#;
    assert!(matches!(handle_manifest(json, "application/json"), ManifestResponse::InvalidManifest));
}

const YAML_GIFTS: &str = "package:
  name: big-chungus-sleigh
  metadata:
    orders:
      - item: \"Toy train\"
        quantity: 5
      - item: \"Toy car\"
        quantity: 3
  rust-version: \"1.69\"
  keywords:
    - \"Christmas 2024\"
";

#[test]
fn yaml_orders_listed() {
    let body = orders_body(handle_manifest(YAML_GIFTS, "application/yaml"));
    assert_eq!(body, "Toy train: 5\nToy car: 3");
}

#[test]
fn yaml_tagged_package_hides_keywords() {
    let yaml = "package: !pkg\n  name: sleigh\n  keywords:\n    - \"Christmas 2024\"\n";
    assert!(matches!(handle_manifest(yaml, "application/yaml"), ManifestResponse::MagicKeywordMissing));
}

#[test]
fn yaml_tagged_quantity_read_through() {
    let yaml = "package:
  name: sleigh
  keywords: [\"Christmas 2024\"]
  metadata:
    orders:
      - item: !gift Bell
        quantity: !n 7
";
    let body = orders_body(handle_manifest(yaml, "application/yaml"));
    assert_eq!(body, "Bell: 7");
}

#[test]
fn parse_picks_format() {
    let v = parse_as_unified_value("{\"a\": [1, \"b\"]}", "application/json").unwrap();
    match v {
        UnifiedValue::Table(entries) => {
            assert_eq!(entries.len(), 1);
            assert_eq!(entries[0].key.as_deref(), Some("a"));
            match &entries[0].value {
                UnifiedValue::Array(items) => {
                    assert!(matches!(items[0], UnifiedValue::Int(1)));
                    assert_eq!(items[1].as_str(), Some("b"));
                }
                _ => panic!("expected an array"),
            }
        }
        _ => panic!("expected a table"),
    }
    assert!(parse_as_unified_value("a = 1", "application/toml").is_ok());
    assert!(parse_as_unified_value("a = ", "application/toml").is_err());
    assert!(parse_as_unified_value("a: [1", "application/yaml").is_err());
    assert!(parse_as_unified_value("a = 1", "text/plain").is_err());
}

#[test]
fn parse_media_type_case_matters() {
    assert!(parse_as_unified_value("a = 1", "APPLICATION/TOML").is_err());
    assert!(parse_as_unified_value("{}", "Application/Json").is_err());
    assert!(parse_as_unified_value("a: 1", "application/YAML").is_err());
    assert!(parse_as_unified_value("{", "application/json").is_err());
    assert!(parse_as_unified_value("a: 1", "application/yaml").is_ok());
    assert_eq!(exact_format("application/json"), Some(Format::Json));
    assert_eq!(exact_format("Application/json"), None);
}

#[test]
fn upper_case_media_type_answered_as_lower() {
    let body = orders_body(handle_manifest(YAML_GIFTS, "APPLICATION/YAML"));
    assert_eq!(body, "Toy train: 5\nToy car: 3");
    let json = r#"{"package": {"name": "n", "keywords": ["Christmas 2024"]}}"#;
    assert!(matches!(handle_manifest(json, "Application/Json"), ManifestResponse::NoContent));
    assert!(matches!(handle_manifest(json, "application/json; charset=utf-8"), ManifestResponse::UnsupportedMediaType));
}

#[test]
fn top_level_checks() {
    assert!(top_level_ok(Format::Toml, TOML_GIFTS));
    assert!(!top_level_ok(Format::Toml, "[package]\nname = 3\n"));
    assert!(top_level_ok(Format::Json, r#"{"package": {"name": "n"}}"#));
    assert!(!top_level_ok(Format::Json, r#"{"package": {"name": 1}}"#));
    assert!(top_level_ok(Format::Yaml, "package:\n  name: n\n"));
    assert!(!top_level_ok(Format::Yaml, "package: n\n"));
}

fn table(entries: Vec<(&str, UnifiedValue)>) -> UnifiedValue {
    UnifiedValue::Table(
        entries
            .into_iter()
            .map(|(k, v)| cch24::value::Entry { key: Some(k.to_string()), value: v })
            .collect(),
    )
}

fn text(s: &str) -> UnifiedValue {
    UnifiedValue::Str(s.to_string())
}

#[test]
fn rules_on_built_values() {
    let order = table(vec![("item", text("Star")), ("quantity", UnifiedValue::Int(9))]);
    let package = table(vec![
        ("name", text("tree")),
        ("rust-version", text("1.80")),
        ("keywords", UnifiedValue::Array(vec![text("x"), text("Christmas 2024")])),
        ("metadata", table(vec![("orders", UnifiedValue::Array(vec![order, UnifiedValue::Other]))])),
    ]);
    let doc = table(vec![("package", package)]);
    assert!(is_valid_package(&doc));
    assert!(has_valid_rust_version(&doc));
    assert!(contains_magic_keyword(&doc));
    let orders = extract_valid_orders(&doc);
    assert_eq!(orders.len(), 1);
    assert_eq!(orders[0].item, "Star");
    assert_eq!(orders[0].quantity, 9);
    let empty = table(vec![]);
    assert!(!is_valid_package(&empty));
    assert!(has_valid_rust_version(&empty));
    assert!(!contains_magic_keyword(&empty));
    assert!(extract_valid_orders(&empty).is_empty());
    assert!(matches!(manifest_outcome(true, Ok(doc)), ManifestResponse::Orders(ref b) if b == "Star: 9"));
    assert!(matches!(manifest_outcome(false, Ok(empty)), ManifestResponse::InvalidManifest));
    assert!(matches!(manifest_outcome(true, Err(())), ManifestResponse::InvalidManifest));
}

#[test]
fn orders_printed_line_by_line() {
    let orders = vec![
        ValidOrder { item: "Toy car".to_string(), quantity: 2 },
        ValidOrder { item: "Lego brick".to_string(), quantity: 230 },
        ValidOrder { item: "Zero".to_string(), quantity: 0 },
    ];
    assert_eq!(orders_to_string(&orders), "Toy car: 2\nLego brick: 230\nZero: 0");
    assert_eq!(orders_to_string(&orders[..1]), "Toy car: 2");
    assert_eq!(orders_to_string(&[]), "");
}
