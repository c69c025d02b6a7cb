use format_plugins::{
    crc32, extract_version_from_rpm_filename, gzip_compress, parse_rpm_filename, xml_escape,
    HttpRequest, Metadata, RepoContext, RpmFormatHandler, RPM_LEAD_SIZE, RPM_MAGIC,
};

#[test]
fn format_key_is_rpm() {
    assert_eq!(RpmFormatHandler::format_key(), "rpm-custom");
}

#[test]
fn parse_simple_rpm() {
    let info = parse_rpm_filename("nginx-1.24.0-1.el9.x86_64.rpm");
    assert_eq!(info.name.as_deref(), Some("nginx"));
    assert_eq!(info.version.as_deref(), Some("1.24.0"));
    assert_eq!(info.release.as_deref(), Some("1.el9"));
    assert_eq!(info.arch.as_deref(), Some("x86_64"));
}

#[test]
fn parse_rpm_with_hyphens_in_name() {
    let info = parse_rpm_filename("python3-numpy-1.24.2-4.el9.x86_64.rpm");
    assert_eq!(info.name.as_deref(), Some("python3-numpy"));
    assert_eq!(info.version.as_deref(), Some("1.24.2"));
    assert_eq!(info.release.as_deref(), Some("4.el9"));
    assert_eq!(info.arch.as_deref(), Some("x86_64"));
}

#[test]
fn parse_rpm_noarch() {
    let info = parse_rpm_filename("bash-completion-2.11-5.el9.noarch.rpm");
    assert_eq!(info.name.as_deref(), Some("bash-completion"));
    assert_eq!(info.version.as_deref(), Some("2.11"));
    assert_eq!(info.release.as_deref(), Some("5.el9"));
    assert_eq!(info.arch.as_deref(), Some("noarch"));
}

#[test]
fn parse_rpm_no_extension() {
    let info = parse_rpm_filename("not-an-rpm.txt");
    assert!(info.name.is_none());
}

#[test]
fn version_from_simple_filename() {
    assert_eq!(
        extract_version_from_rpm_filename("Packages/nginx-1.24.0-1.el9.x86_64.rpm"),
        Some("1.24.0-1.el9".to_string())
    );
}

#[test]
fn version_from_hyphenated_name() {
    assert_eq!(
        extract_version_from_rpm_filename("python3-numpy-1.24.2-4.el9.x86_64.rpm"),
        Some("1.24.2-4.el9".to_string())
    );
}

#[test]
fn parse_metadata_detects_rpm_magic() {
    let mut data = vec![0; RPM_LEAD_SIZE];
    data[..4].copy_from_slice(&RPM_MAGIC);
    let result =
        RpmFormatHandler::parse_metadata("Packages/nginx-1.24.0-1.el9.x86_64.rpm".into(), data);
    let meta = result.unwrap();
    assert_eq!(meta.content_type, "application/x-rpm");
    assert_eq!(meta.version, Some("1.24.0-1.el9".to_string()));
}

#[test]
fn parse_metadata_non_rpm_content() {
    let data = vec![0x50, 0x4b, 0x03, 0x04];
    let result = RpmFormatHandler::parse_metadata("test.rpm".into(), data);
    let meta = result.unwrap();
    assert_eq!(meta.content_type, "application/octet-stream");
}

#[test]
fn lib_parse_metadata_empty_error() {
    let result = RpmFormatHandler::parse_metadata("test.rpm".into(), vec![]);
    assert!(result.is_err());
    assert!(result.unwrap_err().contains("Empty"));
}

#[test]
fn validate_accepts_valid_rpm() {
    let mut data = vec![0; RPM_LEAD_SIZE];
    data[..4].copy_from_slice(&RPM_MAGIC);
    let result = RpmFormatHandler::validate("test.rpm".into(), data);
    assert!(result.is_ok());
}

#[test]
fn lib_validate_rejects_empty() {
    let result = RpmFormatHandler::validate("test.rpm".into(), vec![]);
    assert!(result.unwrap_err().contains("empty"));
}

#[test]
fn lib_validate_rejects_wrong_extension() {
    let mut data = vec![0; RPM_LEAD_SIZE];
    data[..4].copy_from_slice(&RPM_MAGIC);
    let result = RpmFormatHandler::validate("test.deb".into(), data);
    assert!(result.unwrap_err().contains(".rpm"));
}

#[test]
fn validate_rejects_too_small() {
    let data = RPM_MAGIC.to_vec();
    let result = RpmFormatHandler::validate("test.rpm".into(), data);
    assert!(result.unwrap_err().contains("too small"));
}

#[test]
fn validate_rejects_bad_magic() {
    let data = vec![0; RPM_LEAD_SIZE];
    let result = RpmFormatHandler::validate("test.rpm".into(), data);
    assert!(result.unwrap_err().contains("Invalid RPM magic"));
}

#[test]
fn lib_validate_rejects_empty_path() {
    let mut data = vec![0; RPM_LEAD_SIZE];
    data[..4].copy_from_slice(&RPM_MAGIC);
    let result = RpmFormatHandler::validate("".into(), data);
    assert!(result.unwrap_err().contains("path"));
}

#[test]
fn lib_generate_index_empty() {
    let result = RpmFormatHandler::generate_index(vec![]);
    assert!(result.unwrap().is_none());
}

#[test]
fn generate_index_produces_json() {
    let artifacts = vec![
        Metadata {
            path: "Packages/nginx-1.24.0-1.el9.x86_64.rpm".into(),
            version: Some("1.24.0-1.el9".into()),
            content_type: "application/x-rpm".into(),
            size_bytes: 8192,
            checksum_sha256: None,
        },
        Metadata {
            path: "Packages/bash-5.2.26-1.el9.x86_64.rpm".into(),
            version: Some("5.2.26-1.el9".into()),
            content_type: "application/x-rpm".into(),
            size_bytes: 4096,
            checksum_sha256: None,
        },
    ];
    let result = RpmFormatHandler::generate_index(artifacts)
        .unwrap()
        .unwrap();
    assert_eq!(result.len(), 1);
    assert_eq!(result[0].0, "rpm-index.json");

    let json: serde_json::Value = serde_json::from_slice(&result[0].1).unwrap();
    assert_eq!(json["format"], "rpm-custom");
    assert_eq!(json["total_count"], 2);
    assert_eq!(json["total_size_bytes"], 12288);

    let packages = json["packages"].as_array().unwrap();
    assert_eq!(packages[0]["name"], "nginx");
    assert_eq!(packages[0]["arch"], "x86_64");
}

fn test_context() -> RepoContext {
    RepoContext {
        repo_key: "rpm-test".to_string(),
        base_url: "http://localhost:8080/ext/rpm-custom/rpm-test".to_string(),
        download_base_url: "http://localhost:8080/api/v1/repositories/rpm-test/download"
            .to_string(),
    }
}

fn test_artifacts() -> Vec<Metadata> {
    vec![
        Metadata {
            path: "nginx-1.24.0-1.el9.x86_64.rpm".into(),
            version: Some("1.24.0-1.el9".into()),
            content_type: "application/x-rpm".into(),
            size_bytes: 8192,
            checksum_sha256: Some("abc123def456".into()),
        },
        Metadata {
            path: "bash-5.2.26-1.el9.x86_64.rpm".into(),
            version: Some("5.2.26-1.el9".into()),
            content_type: "application/x-rpm".into(),
            size_bytes: 4096,
            checksum_sha256: None,
        },
    ]
}

fn get_request(path: &str) -> HttpRequest {
    HttpRequest {
        method: "GET".to_string(),
        path: path.to_string(),
        query: String::new(),
        headers: Vec::new(),
        body: Vec::new(),
    }
}

#[test]
fn handle_request_repomd_xml() {
    let resp = RpmFormatHandler::handle_request(
        get_request("/repodata/repomd.xml"),
        test_context(),
        test_artifacts(),
    )
    .unwrap();
    assert_eq!(resp.status, 200);
    let body = String::from_utf8(resp.body).unwrap();
    assert!(body.contains("<repomd"));
    assert!(body.contains("primary.xml.gz"));
    assert!(body.contains("filelists.xml.gz"));
    assert!(body.contains("other.xml.gz"));
}

#[test]
fn handle_request_primary_xml_gz() {
    let resp = RpmFormatHandler::handle_request(
        get_request("/repodata/primary.xml.gz"),
        test_context(),
        test_artifacts(),
    )
    .unwrap();
    assert_eq!(resp.status, 200);
    assert!(resp.body.len() > 10);
    assert_eq!(resp.body[0], 0x1f);
    assert_eq!(resp.body[1], 0x8b);
}

#[test]
fn handle_request_filelists_xml_gz() {
    let resp = RpmFormatHandler::handle_request(
        get_request("/repodata/filelists.xml.gz"),
        test_context(),
        test_artifacts(),
    )
    .unwrap();
    assert_eq!(resp.status, 200);
    assert_eq!(resp.body[0], 0x1f);
    assert_eq!(resp.body[1], 0x8b);
}

#[test]
fn handle_request_other_xml_gz() {
    let resp = RpmFormatHandler::handle_request(
        get_request("/repodata/other.xml.gz"),
        test_context(),
        test_artifacts(),
    )
    .unwrap();
    assert_eq!(resp.status, 200);
    assert_eq!(resp.body[0], 0x1f);
    assert_eq!(resp.body[1], 0x8b);
}

#[test]
fn lib_handle_request_package_download_redirect() {
    let resp = RpmFormatHandler::handle_request(
        get_request("/packages/nginx-1.24.0-1.el9.x86_64.rpm"),
        test_context(),
        test_artifacts(),
    )
    .unwrap();
    assert_eq!(resp.status, 302);
    let location = resp.headers.iter().find(|(k, _)| k == "location").unwrap();
    assert!(location
        .1
        .contains("/download/nginx-1.24.0-1.el9.x86_64.rpm"));
}

#[test]
fn lib_handle_request_package_not_found() {
    let resp = RpmFormatHandler::handle_request(
        get_request("/packages/nonexistent-1.0.0-1.el9.x86_64.rpm"),
        test_context(),
        test_artifacts(),
    )
    .unwrap();
    assert_eq!(resp.status, 404);
}

#[test]
fn lib_handle_request_unknown_path() {
    let resp = RpmFormatHandler::handle_request(
        get_request("/unknown/path"),
        test_context(),
        test_artifacts(),
    )
    .unwrap();
    assert_eq!(resp.status, 404);
}

#[test]
fn lib_handle_request_post_rejected() {
    let req = HttpRequest {
        method: "POST".to_string(),
        path: "/repodata/repomd.xml".to_string(),
        query: String::new(),
        headers: Vec::new(),
        body: Vec::new(),
    };
    let resp = RpmFormatHandler::handle_request(req, test_context(), test_artifacts()).unwrap();
    assert_eq!(resp.status, 405);
}

#[test]
fn gzip_compress_produces_valid_header() {
    let result = gzip_compress(b"hello").unwrap();
    assert_eq!(result[0], 0x1f);
    assert_eq!(result[1], 0x8b);
    assert_eq!(result[2], 0x08);
}

#[test]
fn gzip_compress_empty_input() {
    let result = gzip_compress(b"").unwrap();
    assert!(result.len() > 10);
    assert_eq!(result[0], 0x1f);
    assert_eq!(result[1], 0x8b);
}

#[test]
fn crc32_known_value() {
    assert_eq!(crc32(b""), 0x0000_0000);
    assert_eq!(crc32(b"123456789"), 0xCBF4_3926);
}

#[test]
fn xml_escape_special_chars() {
    assert_eq!(
        xml_escape("a<b>c&d\"e'f"),
        "a&lt;b&gt;c&amp;d&quot;e&apos;f"
    );
}
