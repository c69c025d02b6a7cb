use format_plugins::{
    extract_package_name, extract_version, normalize_package_name, HttpRequest, Metadata,
    PypiFormatHandler, RepoContext,
};

#[test]
fn format_key_is_pypi() {
    assert_eq!(PypiFormatHandler::format_key(), "pypi-custom");
}

#[test]
fn normalize_simple_name() {
    assert_eq!(normalize_package_name("requests"), "requests");
}

#[test]
fn normalize_underscores() {
    assert_eq!(normalize_package_name("My_Package"), "my-package");
}

#[test]
fn normalize_dots() {
    assert_eq!(normalize_package_name("some.package"), "some-package");
}

#[test]
fn normalize_consecutive_separators() {
    assert_eq!(normalize_package_name("Package__Name"), "package-name");
}

#[test]
fn normalize_mixed_separators() {
    assert_eq!(normalize_package_name("My.Cool_Package"), "my-cool-package");
}

#[test]
fn normalize_leading_trailing() {
    assert_eq!(normalize_package_name("_leading_"), "leading");
}

#[test]
fn extract_name_from_wheel() {
    assert_eq!(
        extract_package_name("requests-2.28.0-py3-none-any.whl"),
        Some("requests".to_string())
    );
}

#[test]
fn extract_version_from_wheel() {
    assert_eq!(
        extract_version("requests-2.28.0-py3-none-any.whl"),
        Some("2.28.0".to_string())
    );
}

#[test]
fn extract_version_from_wheel_with_build_tag() {
    assert_eq!(
        extract_version("package-1.0.0-1-cp39-cp39-manylinux1_x86_64.whl"),
        Some("1.0.0".to_string())
    );
}

#[test]
fn extract_name_from_sdist() {
    assert_eq!(
        extract_package_name("requests-2.28.0.tar.gz"),
        Some("requests".to_string())
    );
}

#[test]
fn extract_name_from_sdist_with_hyphens() {
    assert_eq!(
        extract_package_name("my-cool-package-1.0.0.tar.gz"),
        Some("my-cool-package".to_string())
    );
}

#[test]
fn extract_version_from_sdist() {
    assert_eq!(
        extract_version("requests-2.28.0.tar.gz"),
        Some("2.28.0".to_string())
    );
}

#[test]
fn extract_version_from_zip() {
    assert_eq!(
        extract_version("my-package-1.0.0.zip"),
        Some("1.0.0".to_string())
    );
}

#[test]
fn parse_metadata_wheel() {
    let data = vec![0x50, 0x4b, 0x03, 0x04];
    let result = PypiFormatHandler::parse_metadata(
        "packages/requests/2.28.0/requests-2.28.0-py3-none-any.whl".into(),
        data,
    );
    let meta = result.unwrap();
    assert_eq!(meta.content_type, "application/zip");
    assert_eq!(meta.version, Some("2.28.0".to_string()));
}

#[test]
fn parse_metadata_sdist() {
    let data = vec![0x1f, 0x8b, 0x08];
    let result = PypiFormatHandler::parse_metadata(
        "packages/requests/2.28.0/requests-2.28.0.tar.gz".into(),
        data,
    );
    let meta = result.unwrap();
    assert_eq!(meta.content_type, "application/gzip");
    assert_eq!(meta.version, Some("2.28.0".to_string()));
}

#[test]
fn parse_metadata_empty_error() {
    let result = PypiFormatHandler::parse_metadata("test.whl".into(), vec![]);
    assert!(result.is_err());
}

#[test]
fn validate_accepts_wheel() {
    let data = vec![0x50, 0x4b, 0x03, 0x04];
    let result = PypiFormatHandler::validate("requests-2.28.0-py3-none-any.whl".into(), data);
    assert!(result.is_ok());
}

#[test]
fn validate_accepts_sdist() {
    let data = vec![0x1f, 0x8b, 0x08];
    let result = PypiFormatHandler::validate("requests-2.28.0.tar.gz".into(), data);
    assert!(result.is_ok());
}

#[test]
fn validate_rejects_empty() {
    let result = PypiFormatHandler::validate("test.whl".into(), vec![]);
    assert!(result.unwrap_err().contains("empty"));
}

#[test]
fn validate_rejects_wrong_extension() {
    let result = PypiFormatHandler::validate("test.rpm".into(), vec![0x00]);
    assert!(result.unwrap_err().contains(".whl"));
}

#[test]
fn validate_rejects_bad_wheel_filename() {
    let data = vec![0x50, 0x4b];
    let result = PypiFormatHandler::validate("bad-name.whl".into(), data);
    assert!(result.unwrap_err().contains("5 dash-separated"));
}

#[test]
fn validate_rejects_sdist_without_version() {
    let data = vec![0x1f, 0x8b];
    let result = PypiFormatHandler::validate("noversion.tar.gz".into(), data);
    assert!(result.unwrap_err().contains("name-version"));
}

#[test]
fn validate_rejects_empty_path() {
    let result = PypiFormatHandler::validate("".into(), vec![0x00]);
    assert!(result.unwrap_err().contains("path"));
}

#[test]
fn generate_index_empty() {
    let result = PypiFormatHandler::generate_index(vec![]);
    assert!(result.unwrap().is_none());
}

#[test]
fn generate_index_produces_html_and_json() {
    let artifacts = vec![
        Metadata {
            path: "packages/requests/2.28.0/requests-2.28.0-py3-none-any.whl".into(),
            version: Some("2.28.0".into()),
            content_type: "application/zip".into(),
            size_bytes: 2048,
            checksum_sha256: None,
        },
        Metadata {
            path: "packages/numpy/1.24.2/numpy-1.24.2.tar.gz".into(),
            version: Some("1.24.2".into()),
            content_type: "application/gzip".into(),
            size_bytes: 4096,
            checksum_sha256: None,
        },
    ];
    let result = PypiFormatHandler::generate_index(artifacts)
        .unwrap()
        .unwrap();
    assert_eq!(result.len(), 2);

    assert_eq!(result[0].0, "simple/index.html");
    let html = String::from_utf8(result[0].1.clone()).unwrap();
    assert!(html.contains("numpy"));
    assert!(html.contains("requests"));
    assert!(html.contains("/simple/"));

    assert_eq!(result[1].0, "pypi-index.json");
    let json: serde_json::Value = serde_json::from_slice(&result[1].1).unwrap();
    assert_eq!(json["format"], "pypi-custom");
    assert_eq!(json["total_count"], 2);
}

#[test]
fn generate_index_normalizes_names() {
    let artifacts = vec![Metadata {
        path: "packages/My_Package-1.0.0-py3-none-any.whl".into(),
        version: Some("1.0.0".into()),
        content_type: "application/zip".into(),
        size_bytes: 1024,
        checksum_sha256: None,
    }];
    let result = PypiFormatHandler::generate_index(artifacts)
        .unwrap()
        .unwrap();
    let html = String::from_utf8(result[0].1.clone()).unwrap();
    assert!(html.contains("my-package"));
}

fn test_context() -> RepoContext {
    RepoContext {
        repo_key: "pypi-test".to_string(),
        base_url: "http://localhost:8080/ext/pypi-custom/pypi-test".to_string(),
        download_base_url: "http://localhost:8080/api/v1/repositories/pypi-test/download"
            .to_string(),
    }
}

fn test_artifacts() -> Vec<Metadata> {
    vec![
        Metadata {
            path: "requests-2.28.0-py3-none-any.whl".into(),
            version: Some("2.28.0".into()),
            content_type: "application/zip".into(),
            size_bytes: 2048,
            checksum_sha256: Some("abc123".into()),
        },
        Metadata {
            path: "requests-2.28.0.tar.gz".into(),
            version: Some("2.28.0".into()),
            content_type: "application/gzip".into(),
            size_bytes: 4096,
            checksum_sha256: Some("def456".into()),
        },
        Metadata {
            path: "numpy-1.24.2-cp311-cp311-manylinux_2_17_x86_64.whl".into(),
            version: Some("1.24.2".into()),
            content_type: "application/zip".into(),
            size_bytes: 8192,
            checksum_sha256: None,
        },
    ]
}

fn get_request(path: &str) -> HttpRequest {
    HttpRequest {
        method: "GET".to_string(),
        path: path.to_string(),
        query: String::new(),
        headers: Vec::new(),
        body: Vec::new(),
    }
}

#[test]
fn handle_request_simple_root() {
    let resp = PypiFormatHandler::handle_request(
        get_request("/simple/"),
        test_context(),
        test_artifacts(),
    )
    .unwrap();
    assert_eq!(resp.status, 200);
    let body = String::from_utf8(resp.body).unwrap();
    assert!(body.contains("numpy"));
    assert!(body.contains("requests"));
    assert!(body.contains("/ext/pypi-custom/pypi-test/simple/"));
}

#[test]
fn handle_request_root_redirects_to_simple() {
    let resp =
        PypiFormatHandler::handle_request(get_request("/"), test_context(), test_artifacts())
            .unwrap();
    assert_eq!(resp.status, 200);
    let body = String::from_utf8(resp.body).unwrap();
    assert!(body.contains("Simple Index"));
}

#[test]
fn handle_request_project_page() {
    let resp = PypiFormatHandler::handle_request(
        get_request("/simple/requests/"),
        test_context(),
        test_artifacts(),
    )
    .unwrap();
    assert_eq!(resp.status, 200);
    let body = String::from_utf8(resp.body).unwrap();
    assert!(body.contains("requests-2.28.0-py3-none-any.whl"));
    assert!(body.contains("requests-2.28.0.tar.gz"));
    assert!(body.contains("#sha256=abc123"));
    assert!(body.contains("#sha256=def456"));
    assert!(!body.contains("numpy"));
}

#[test]
fn handle_request_project_not_found() {
    let resp = PypiFormatHandler::handle_request(
        get_request("/simple/nonexistent/"),
        test_context(),
        test_artifacts(),
    )
    .unwrap();
    assert_eq!(resp.status, 404);
}

#[test]
fn handle_request_package_download_redirect() {
    let resp = PypiFormatHandler::handle_request(
        get_request("/packages/requests-2.28.0-py3-none-any.whl"),
        test_context(),
        test_artifacts(),
    )
    .unwrap();
    assert_eq!(resp.status, 302);
    let location = resp.headers.iter().find(|(k, _)| k == "location").unwrap();
    assert!(location
        .1
        .contains("/download/requests-2.28.0-py3-none-any.whl"));
}

#[test]
fn handle_request_package_not_found() {
    let resp = PypiFormatHandler::handle_request(
        get_request("/packages/nonexistent-1.0.0.whl"),
        test_context(),
        test_artifacts(),
    )
    .unwrap();
    assert_eq!(resp.status, 404);
}

#[test]
fn handle_request_unknown_path() {
    let resp = PypiFormatHandler::handle_request(
        get_request("/unknown/path"),
        test_context(),
        test_artifacts(),
    )
    .unwrap();
    assert_eq!(resp.status, 404);
}

#[test]
fn handle_request_post_rejected() {
    let req = HttpRequest {
        method: "POST".to_string(),
        path: "/simple/".to_string(),
        query: String::new(),
        headers: Vec::new(),
        body: Vec::new(),
    };
    let resp = PypiFormatHandler::handle_request(req, test_context(), test_artifacts()).unwrap();
    assert_eq!(resp.status, 405);
}
