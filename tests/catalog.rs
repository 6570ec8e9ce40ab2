use server_setup::catalog::{
    build_query_url, fabric_jar_url, jar_url_from_document, release_version, select_releases,
    versions_from_document, versions_url, CatalogError, Platform,
};

fn strings(v: &[&str]) -> Vec<String> {
    v.iter().map(|s| s.to_string()).collect()
}

#[test]
fn releases_exclude_candidates() {
    assert!(release_version("1.20.4"));
    assert!(!release_version("1.20-rc1"));
    assert!(!release_version("1.20-pre2"));
}

#[test]
fn releases_are_listed_latest_first() {
    let all = strings(&["1.19", "1.20-rc1", "1.20", "1.21-pre1", "1.21"]);
    assert_eq!(select_releases(&all), strings(&["1.21", "1.20", "1.19"]));
    assert_eq!(select_releases(&Vec::new()), Vec::<String>::new());
}

#[test]
fn paper_versions_from_document() {
    let doc = r#"{"project_id":"paper","versions":["1.19","1.20-pre1","1.20"]}"#;
    assert_eq!(versions_from_document(Platform::Paper, doc), Ok(strings(&["1.20", "1.19"])));
}

#[test]
fn fabric_versions_keep_stable_ones() {
    let doc = r#"{"game":[{"version":"1.21","stable":true},{"version":"24w01a","stable":false},{"version":"1.20"}]}"#;
    assert_eq!(versions_from_document(Platform::Fabric, doc), Ok(strings(&["1.21"])));
}

#[test]
fn malformed_documents_are_refused() {
    assert_eq!(versions_from_document(Platform::Paper, "not json"), Err(CatalogError::Malformed));
    assert_eq!(versions_from_document(Platform::Paper, r#"{"versions":[1]}"#), Err(CatalogError::Malformed));
    assert_eq!(versions_from_document(Platform::Fabric, r#"{"games":[]}"#), Err(CatalogError::Malformed));
}

#[test]
fn vanilla_is_unsupported() {
    assert_eq!(versions_url(Platform::Vanilla), Err(CatalogError::Unsupported));
    assert_eq!(versions_from_document(Platform::Vanilla, "{}"), Err(CatalogError::Unsupported));
    assert_eq!(build_query_url(Platform::Vanilla, "1.21"), Err(CatalogError::Unsupported));
    assert_eq!(jar_url_from_document(Platform::Vanilla, "1.21", "{}"), Err(CatalogError::Unsupported));
}

#[test]
fn catalog_addresses() {
    assert_eq!(versions_url(Platform::Paper), Ok("https://api.papermc.io/v2/projects/paper".to_string()));
    assert_eq!(versions_url(Platform::Fabric), Ok("https://meta.fabricmc.net/v2/versions".to_string()));
    assert_eq!(
        build_query_url(Platform::Paper, "1.21"),
        Ok("https://fill.papermc.io/v3/projects/paper/versions/1.21/builds/latest".to_string())
    );
    assert_eq!(
        build_query_url(Platform::Fabric, "1.21"),
        Ok("https://meta.fabricmc.net/v2/versions/loader/1.21".to_string())
    );
    assert_eq!(
        fabric_jar_url("1.21", "0.16.0"),
        "https://meta.fabricmc.net/v2/versions/loader/1.21/0.16.0/1.1.0/server/jar"
    );
}

#[test]
fn paper_jar_url_from_document() {
    let doc = r#"{"id":7,"downloads":{"server:default":{"name":"paper.jar","url":"https://fill-data.papermc.io/v1/objects/abc/paper.jar"}}}"#;
    assert_eq!(
        jar_url_from_document(Platform::Paper, "1.21", doc),
        Ok("https://fill-data.papermc.io/v1/objects/abc/paper.jar".to_string())
    );
    assert_eq!(jar_url_from_document(Platform::Paper, "1.21", r#"{"downloads":{}}"#), Err(CatalogError::Malformed));
}

#[test]
fn fabric_jar_url_from_document() {
    let doc = r#"[{"loader":{"version":"0.16.0","stable":true}},{"loader":{"version":"0.15.0"}}]"#;
    assert_eq!(
        jar_url_from_document(Platform::Fabric, "1.21", doc),
        Ok("https://meta.fabricmc.net/v2/versions/loader/1.21/0.16.0/1.1.0/server/jar".to_string())
    );
    assert_eq!(jar_url_from_document(Platform::Fabric, "1.21", "[]"), Err(CatalogError::Malformed));
}

#[test]
fn versions_become_select_items() {
    let items = server_setup::catalog::convert_to_items(&strings(&["1.21", "1.20"]));
    assert_eq!(
        items,
        vec![
            ("1.21".to_string(), "1.21".to_string(), String::new()),
            ("1.20".to_string(), "1.20".to_string(), String::new()),
        ]
    );
}

#[test]
fn paper_versions_example() {
    let doc = r#"{"versions":["1.19.4","1.20-pre1","1.20-rc1","1.20","1.20.1"]}"#;
    assert_eq!(versions_from_document(Platform::Paper, doc), Ok(strings(&["1.20.1", "1.20", "1.19.4"])));
}

#[test]
fn fabric_versions_example() {
    let doc = r#"{"game":[{"version":"1.21","stable":true},{"version":"24w14a","stable":false},{"version":"1.20.6"},{"version":"1.20.5","stable":true}]}"#;
    assert_eq!(versions_from_document(Platform::Fabric, doc), Ok(strings(&["1.21", "1.20.5"])));
}

#[test]
fn fabric_jar_uses_first_loader() {
    let doc = r#"[{"loader":{"version":"0.16.5"}},{"loader":{"version":"0.16.4"}}]"#;
    assert_eq!(
        jar_url_from_document(Platform::Fabric, "1.20.1", doc),
        Ok("https://meta.fabricmc.net/v2/versions/loader/1.20.1/0.16.5/1.1.0/server/jar".to_string())
    );
}

#[test]
fn paper_jar_example() {
    let doc = r#"{"downloads":{"server:default":{"url":"https://fill-data.papermc.io/v1/objects/abc/paper-1.21.1-130.jar"}}}"#;
    assert_eq!(
        jar_url_from_document(Platform::Paper, "1.21.1", doc),
        Ok("https://fill-data.papermc.io/v1/objects/abc/paper-1.21.1-130.jar".to_string())
    );
    assert_eq!(
        jar_url_from_document(Platform::Paper, "1.21.1", r#"{"downloads":{"server:default":{"url":7}}}"#),
        Err(CatalogError::Malformed)
    );
}
