use std::io::Read;

use format_plugins::{
    check_filename, crc32, extract_package_name, normalize_lowered, extract_version, extract_version_from_path, gzip_compress,
    is_semver_like, normalize_package_name, HttpRequest, Metadata, PypiFormatHandler,
    RepoContext, RpmFormatHandler, UnityFormatHandler, RPM_LEAD_SIZE, RPM_MAGIC,
};

fn gunzip(bytes: &[u8]) -> Vec<u8> {
    let mut out = Vec::new();
    flate2::read::GzDecoder::new(bytes)
        .read_to_end(&mut out)
        .unwrap();
    out
}

fn request(method: &str, path: &str) -> HttpRequest {
    HttpRequest {
        method: method.to_string(),
        path: path.to_string(),
        query: String::new(),
        headers: Vec::new(),
        body: Vec::new(),
    }
}

fn context() -> RepoContext {
    RepoContext {
        repo_key: "repo".to_string(),
        base_url: "http://host/ext/repo".to_string(),
        download_base_url: "http://host/download".to_string(),
    }
}

fn artifact(path: &str, size: u64, checksum: Option<&str>) -> Metadata {
    Metadata {
        path: path.to_string(),
        version: None,
        content_type: "application/octet-stream".to_string(),
        size_bytes: size,
        checksum_sha256: checksum.map(|c| c.to_string()),
    }
}

#[test]
fn normalize_twice_is_normalize_once() {
    for name in [
        "My.Cool_Package",
        "__A--b__",
        "already-normal",
        "Ünïcode__Näme",
        "x...y",
        "",
        "---",
        "Django_REST.framework",
    ] {
        let once = normalize_package_name(name);
        assert_eq!(normalize_package_name(&once), once);
        assert!(!once.starts_with('-') && !once.ends_with('-'));
        assert!(!once.contains("--"));
        assert!(once
            .chars()
            .all(|c| c.is_ascii_lowercase() || c.is_ascii_digit() || c == '-'));
    }
    assert_eq!(normalize_package_name("Ünïcode__Näme"), "n-code-n-me");
    assert_eq!(normalize_package_name("---"), "");
}

#[test]
fn wheel_name_and_version_round_trip() {
    for (name, version) in [("requests", "2.28.0"), ("Flask_Login", "0.6"), ("a", "1")] {
        let filename = format!("{name}-{version}-py3-none-any.whl");
        assert_eq!(extract_package_name(&filename), Some(name.to_string()));
        assert_eq!(extract_version(&filename), Some(version.to_string()));
    }
}

#[test]
fn rpm_grammar_missing_separators() {
    let info = format_plugins::parse_rpm_filename("nginx.rpm");
    assert_eq!(info.name.as_deref(), Some("nginx"));
    assert!(info.version.is_none() && info.release.is_none() && info.arch.is_none());
    assert_eq!(format_plugins::extract_version_from_rpm_filename("a/b/tool-1.0.noarch.rpm"), None);
    assert_eq!(
        format_plugins::extract_version_from_rpm_filename("a/b/tool-1.0-2.noarch.rpm"),
        Some("1.0-2".to_string())
    );
}

#[test]
fn gzip_output_decodes_to_input() {
    let sizes = [0usize, 1, 5, 65534, 65535, 65536, 131070, 200_000];
    for n in sizes {
        let data: Vec<u8> = (0..n).map(|i| (i * 31 % 251) as u8).collect();
        let encoded = gzip_compress(&data).unwrap();
        assert_eq!(gunzip(&encoded), data, "size {n}");
    }
}

#[test]
fn gzip_framing_is_exact() {
    let out = gzip_compress(b"hello").unwrap();
    assert_eq!(&out[..10], &[0x1f, 0x8b, 0x08, 0, 0, 0, 0, 0, 0, 0xff]);
    assert_eq!(&out[10..15], &[0x01, 0x05, 0x00, 0xfa, 0xff]);
    assert_eq!(&out[15..20], b"hello");
    assert_eq!(&out[20..24], &crc32(b"hello").to_le_bytes());
    assert_eq!(&out[24..28], &5u32.to_le_bytes());
    assert_eq!(out.len(), 28);

    let empty = gzip_compress(b"").unwrap();
    assert_eq!(&empty[10..15], &[0x01, 0x00, 0x00, 0xff, 0xff]);
    assert_eq!(empty.len(), 23);

    let big = gzip_compress(&vec![7u8; 65536]).unwrap();
    assert_eq!(&big[10..15], &[0x00, 0xff, 0xff, 0x00, 0x00]);
    assert_eq!(&big[10 + 5 + 65535..10 + 5 + 65535 + 5], &[0x01, 0x01, 0x00, 0xfe, 0xff]);
}

#[test]
fn crc32_reference_vectors() {
    assert_eq!(crc32(b""), 0);
    assert_eq!(crc32(b"123456789"), 0xCBF4_3926);
    assert_eq!(crc32(b"a"), 0xE8B7_BE43);
}

#[test]
fn generate_index_of_nothing_is_no_index() {
    assert!(PypiFormatHandler::generate_index(vec![]).unwrap().is_none());
    assert!(RpmFormatHandler::generate_index(vec![]).unwrap().is_none());
    assert!(UnityFormatHandler::generate_index(vec![]).unwrap().is_none());
}

#[test]
fn simple_protocol_project_scenario() {
    let artifacts = vec![
        artifact("requests-2.28.0-py3-none-any.whl", 1, Some("abc123")),
        artifact("requests-2.28.0.tar.gz", 2, Some("def456")),
        artifact("numpy-1.24.2.tar.gz", 3, Some("")),
    ];
    let resp =
        PypiFormatHandler::handle_request(request("GET", "/simple/requests/"), context(), artifacts)
            .unwrap();
    assert_eq!(resp.status, 200);
    let body = String::from_utf8(resp.body).unwrap();
    assert!(body.contains(
        "<a href=\"http://host/ext/repo/packages/requests-2.28.0-py3-none-any.whl#sha256=abc123\">requests-2.28.0-py3-none-any.whl</a>"
    ));
    assert!(body.contains(
        "<a href=\"http://host/ext/repo/packages/requests-2.28.0.tar.gz#sha256=def456\">requests-2.28.0.tar.gz</a>"
    ));
    assert!(body.contains("<title>Links for requests</title>"));
    assert!(!body.contains("numpy"));
}

#[test]
fn simple_project_matches_normalized_name() {
    let artifacts = vec![
        artifact("My_Package-1.0-py3-none-any.whl", 1, None),
        artifact("my.package-2.0.zip", 1, Some("")),
    ];
    let resp = PypiFormatHandler::handle_request(
        request("HEAD", "/simple/MY-PACKAGE"),
        context(),
        artifacts,
    )
    .unwrap();
    assert_eq!(resp.status, 200);
    let body = String::from_utf8(resp.body).unwrap();
    assert!(body.contains("My_Package-1.0-py3-none-any.whl\">"));
    assert!(body.contains("my.package-2.0.zip\">"));
    assert!(!body.contains("#sha256="));
}

#[test]
fn simple_root_is_sorted_and_deduplicated() {
    let artifacts = vec![
        artifact("zeta-1.0.tar.gz", 1, None),
        artifact("Alpha-1.0-py3-none-any.whl", 1, None),
        artifact("alpha-2.0.tar.gz", 1, None),
        artifact("README.txt", 1, None),
    ];
    let resp =
        PypiFormatHandler::handle_request(request("GET", "/simple"), context(), artifacts).unwrap();
    let body = String::from_utf8(resp.body).unwrap();
    let expected = "<!DOCTYPE html>\n<html>\n<head><title>Simple Index</title></head>\n<body>\n  <a href=\"http://host/ext/repo/simple/alpha/\">alpha</a>\n  <a href=\"http://host/ext/repo/simple/zeta/\">zeta</a>\n</body>\n</html>\n";
    assert_eq!(body, expected);
    assert_eq!(resp.headers, vec![("content-type".to_string(), "text/html".to_string())]);
}

#[test]
fn rpm_download_scenario() {
    let artifacts = vec![artifact("Packages/nginx-1.24.0-1.el9.x86_64.rpm", 1, None)];
    for prefix in ["/packages/", "/Packages/"] {
        let resp = RpmFormatHandler::handle_request(
            request("GET", &format!("{prefix}nginx-1.24.0-1.el9.x86_64.rpm")),
            context(),
            artifacts.iter().map(|a| artifact(&a.path, 1, None)).collect(),
        )
        .unwrap();
        assert_eq!(resp.status, 302);
        assert_eq!(
            resp.headers,
            vec![(
                "location".to_string(),
                "http://host/download/Packages/nginx-1.24.0-1.el9.x86_64.rpm".to_string()
            )]
        );
        assert!(resp.body.is_empty());
    }
    let missing = RpmFormatHandler::handle_request(
        request("GET", "/packages/nginx-9.9-1.el9.x86_64.rpm"),
        context(),
        artifacts,
    )
    .unwrap();
    assert_eq!(missing.status, 404);
    assert_eq!(
        String::from_utf8(missing.body).unwrap(),
        "Package 'nginx-9.9-1.el9.x86_64.rpm' not found"
    );
}

#[test]
fn other_methods_are_refused_everywhere() {
    for method in ["POST", "PUT", "DELETE", "get", "PATCH"] {
        for path in ["/", "/simple/", "/simple/requests/", "/packages/a-1.0.tar.gz"] {
            let resp =
                PypiFormatHandler::handle_request(request(method, path), context(), vec![]).unwrap();
            assert_eq!(resp.status, 405);
            assert_eq!(resp.headers, vec![("allow".to_string(), "GET, HEAD".to_string())]);
        }
        for path in [
            "/repodata/repomd.xml",
            "/repodata/primary.xml.gz",
            "/repodata/filelists.xml.gz",
            "/repodata/other.xml.gz",
            "/packages/a-1-1.x86_64.rpm",
        ] {
            let resp =
                RpmFormatHandler::handle_request(request(method, path), context(), vec![]).unwrap();
            assert_eq!(resp.status, 405);
            assert_eq!(resp.headers, vec![("allow".to_string(), "GET, HEAD".to_string())]);
            assert_eq!(resp.body, b"Method Not Allowed".to_vec());
        }
    }
}

#[test]
fn primary_feed_decodes_to_package_list() {
    let mut a = artifact("Packages/nginx-1.24.0-1.el9.x86_64.rpm", 8192, Some("abc"));
    a.version = Some("1.24.0-1.el9".to_string());
    let b = artifact("weird<&>.rpm", 7, None);
    let resp = RpmFormatHandler::handle_request(
        request("GET", "/repodata/primary.xml.gz/"),
        context(),
        vec![a, b],
    )
    .unwrap();
    assert_eq!(resp.headers, vec![("content-type".to_string(), "application/gzip".to_string())]);
    let xml = String::from_utf8(gunzip(&resp.body)).unwrap();
    assert!(xml.contains("packages=\"2\">"));
    assert!(xml.contains(
        "<rpm:entry name=\"nginx\" flags=\"EQ\" epoch=\"0\" ver=\"1.24.0\" rel=\"1.el9\"/>"
    ));
    assert!(xml.contains("<checksum type=\"sha256\" pkgid=\"YES\">abc</checksum>"));
    assert!(xml.contains("<size package=\"8192\" installed=\"0\" archive=\"0\"/>"));
    assert!(xml.contains("<name>weird&lt;&amp;&gt;</name>"));
    assert!(xml.contains("<arch>x86_64</arch>"));
    assert!(xml.contains("ver=\"0\" rel=\"0\""));
    assert!(xml.ends_with("</metadata>\n"));
}

#[test]
fn empty_feeds_decode_to_fixed_documents() {
    let resp = RpmFormatHandler::handle_request(
        request("GET", "/repodata/filelists.xml.gz"),
        context(),
        vec![],
    )
    .unwrap();
    assert_eq!(
        String::from_utf8(gunzip(&resp.body)).unwrap(),
        "<?xml version=\"1.0\" encoding=\"UTF-8\"?>\n<filelists xmlns=\"http://linux.duke.edu/metadata/filelists\" packages=\"0\">\n</filelists>\n"
    );
    let resp = RpmFormatHandler::handle_request(
        request("HEAD", "/repodata/other.xml.gz"),
        context(),
        vec![],
    )
    .unwrap();
    assert!(String::from_utf8(gunzip(&resp.body)).unwrap().contains("<otherdata"));
}

#[test]
fn catalog_matches_serde_pretty_layout() {
    let mut a = artifact("assets/MyPlugin-1.0.0.unitypackage", 1024, None);
    a.version = Some("1.0.0".to_string());
    a.content_type = "application/gzip".to_string();
    let b = artifact("odd \"name\"\\\n.unitypackage", u64::MAX, None);
    let docs = UnityFormatHandler::generate_index(vec![a, b]).unwrap().unwrap();

    let mut first = serde_json::Map::new();
    first.insert("path".into(), serde_json::Value::String("assets/MyPlugin-1.0.0.unitypackage".into()));
    first.insert("version".into(), serde_json::Value::String("1.0.0".into()));
    first.insert("size_bytes".into(), serde_json::Value::Number(1024u64.into()));
    first.insert("content_type".into(), serde_json::Value::String("application/gzip".into()));
    let mut second = serde_json::Map::new();
    second.insert("path".into(), serde_json::Value::String("odd \"name\"\\\n.unitypackage".into()));
    second.insert("size_bytes".into(), serde_json::Value::Number(u64::MAX.into()));
    second.insert(
        "content_type".into(),
        serde_json::Value::String("application/octet-stream".into()),
    );
    let mut top = serde_json::Map::new();
    top.insert("format".into(), serde_json::Value::String("unity".into()));
    top.insert("total_count".into(), serde_json::Value::Number(2u64.into()));
    top.insert(
        "packages".into(),
        serde_json::Value::Array(vec![
            serde_json::Value::Object(first),
            serde_json::Value::Object(second),
        ]),
    );
    let mut expected =
        serde_json::to_string_pretty(&serde_json::Value::Object(top)).unwrap();
    expected = expected.replace(
        "\"total_count\": 2\n}",
        &format!("\"total_count\": 2,\n  \"total_size_bytes\": {}\n}}", 1024u128 + u64::MAX as u128),
    );
    assert_eq!(String::from_utf8(docs[0].1.clone()).unwrap(), expected);
}

#[test]
fn pypi_catalog_fields() {
    let mut a = artifact("pkgs/Foo.Bar-1.0.tar.gz", 10, None);
    a.version = Some("1.0".to_string());
    let b = artifact("pkgs/unknown.bin", 20, None);
    let docs = PypiFormatHandler::generate_index(vec![a, b]).unwrap().unwrap();
    assert_eq!(
        String::from_utf8(docs[0].1.clone()).unwrap(),
        "<!DOCTYPE html>\n<html>\n<head><title>Simple Index</title></head>\n<body>\n  <a href=\"/simple/foo-bar/\">foo-bar</a>\n</body>\n</html>\n"
    );
    let json: serde_json::Value = serde_json::from_slice(&docs[1].1).unwrap();
    assert_eq!(json["packages"][0]["name"], "foo-bar");
    assert_eq!(json["packages"][0]["version"], "1.0");
    assert_eq!(json["packages"][1]["name"], "");
    assert!(json["packages"][1].get("version").is_none());
    assert_eq!(json["total_size_bytes"], 30);
}

#[test]
fn validation_errors_name_their_cause() {
    assert_eq!(
        PypiFormatHandler::validate("x/Bad-Name.WHL".into(), vec![1]).unwrap_err(),
        "Invalid wheel filename: expected at least 5 dash-separated parts (name-version-python-abi-platform), got 2 in 'Bad-Name.WHL'"
    );
    assert_eq!(
        PypiFormatHandler::validate("NoVersion.ZIP".into(), vec![1]).unwrap_err(),
        "Invalid source distribution filename: expected 'name-version' format, got 'noversion'"
    );
    assert_eq!(
        PypiFormatHandler::validate("dir/file.txt".into(), vec![1]).unwrap_err(),
        "Expected .whl, .tar.gz, or .zip extension, got: file.txt"
    );
    assert!(PypiFormatHandler::validate("A-1-py3-none-any.WHL".into(), vec![1]).is_ok());
    assert_eq!(
        RpmFormatHandler::validate("x.rpm".into(), vec![1, 2, 3]).unwrap_err(),
        "File too small for RPM lead: 3 bytes (minimum 96)"
    );
    let mut lead = vec![0u8; RPM_LEAD_SIZE];
    lead[0] = 0xab;
    lead[3] = 0x0f;
    assert_eq!(
        RpmFormatHandler::validate("x.rpm".into(), lead).unwrap_err(),
        "Invalid RPM magic: expected [ed, ab, ee, db], got [ab, 00, 00, 0f]"
    );
    let mut ok = vec![0u8; RPM_LEAD_SIZE];
    ok[..4].copy_from_slice(&RPM_MAGIC);
    assert!(RpmFormatHandler::validate("dir/X.RPM".into(), ok).is_ok());
    assert_eq!(
        UnityFormatHandler::validate("a.unitypackage".into(), vec![0x1f]).unwrap_err(),
        "File too small to be a valid gzip archive"
    );
    assert_eq!(
        UnityFormatHandler::validate("a.UnityPackage".into(), vec![0x1f, 0x8b, 0x00]).unwrap_err(),
        "Unsupported gzip compression method: 00 (expected 08/deflate)"
    );
    assert!(UnityFormatHandler::validate("a.unitypackage".into(), vec![0x1f, 0x8b]).is_ok());
    assert_eq!(
        UnityFormatHandler::validate("".into(), vec![1]).unwrap_err(),
        "Artifact path cannot be empty"
    );
}

#[test]
fn unity_version_heuristics() {
    assert_eq!(extract_version_from_path("a/v1.2/b/x.unitypackage"), Some("v1.2".to_string()));
    assert_eq!(extract_version_from_path("a/1.0/2.0/x.unitypackage"), Some("2.0".to_string()));
    assert_eq!(extract_version_from_path("Tool-v1.2-2.0.tar"), Some("2.0".to_string()));
    assert_eq!(extract_version_from_path("noext"), None);
    assert!(is_semver_like("v1.0-rc1"));
    assert!(!is_semver_like("1_0.2"));
    assert!(!is_semver_like("v"));
    assert!(!is_semver_like("12"));
}

#[test]
fn normalize_lowered_collapses_and_trims() {
    assert_eq!(normalize_lowered("__my..pkg--"), "my-pkg");
    assert_eq!(normalize_lowered("a b\tc"), "a-b-c");
    assert_eq!(normalize_lowered("Keeps-Case"), "Keeps-Case");
    assert_eq!(normalize_lowered(""), "");
}

#[test]
fn filename_checks_on_lowered_names() {
    assert!(check_filename("A-1-py3-none-any.WHL", "a-1-py3-none-any.whl").is_ok());
    assert_eq!(
        check_filename("Pkg.WHL", "pkg.whl").unwrap_err(),
        "Invalid wheel filename: expected at least 5 dash-separated parts (name-version-python-abi-platform), got 1 in 'Pkg.WHL'"
    );
    assert_eq!(
        check_filename("Pkg.Tar.Gz", "pkg.tar.gz").unwrap_err(),
        "Invalid source distribution filename: expected 'name-version' format, got 'pkg'"
    );
    assert_eq!(
        check_filename("a.egg", "a.egg").unwrap_err(),
        "Expected .whl, .tar.gz, or .zip extension, got: a.egg"
    );
    assert!(check_filename("x-1.zip", "x-1.zip").is_ok());
}

#[test]
fn python_content_type_follows_leading_bytes() {
    let kind = |path: &str, data: Vec<u8>| {
        PypiFormatHandler::parse_metadata(path.to_string(), data)
            .unwrap()
            .content_type
    };
    assert_eq!(kind("a-1-py3-none-any.whl", vec![0x50, 0x4b, 0x03, 0x04]), "application/zip");
    assert_eq!(kind("a-1-py3-none-any.whl", vec![0x1f, 0x8b]), "application/gzip");
    assert_eq!(kind("a-1.tar.gz", vec![0x00, 0x01]), "application/octet-stream");
    assert_eq!(kind("a-1.zip", vec![0x50, 0x4b, 0x03]), "application/octet-stream");
    let meta = PypiFormatHandler::parse_metadata("d/a-1.tar.gz".to_string(), vec![1, 2, 3]).unwrap();
    assert_eq!(meta.version, Some("1".to_string()));
    assert_eq!(meta.size_bytes, 3);
}

#[test]
fn catalog_strings_are_escaped_as_json() {
    let a = artifact("q\"\\\u{1}\u{8}\t\n\u{c}\r/\u{7f}é.unitypackage", 1, None);
    let docs = UnityFormatHandler::generate_index(vec![a]).unwrap().unwrap();
    let text = String::from_utf8(docs[0].1.clone()).unwrap();
    assert!(text.contains(
        "\"path\": \"q\\\"\\\\\\u0001\\b\\t\\n\\f\\r/\u{7f}é.unitypackage\""
    ));
    let json: serde_json::Value = serde_json::from_slice(&docs[0].1).unwrap();
    assert_eq!(
        json["packages"][0]["path"],
        "q\"\\\u{1}\u{8}\t\n\u{c}\r/\u{7f}é.unitypackage"
    );
}

#[test]
fn gzip_multi_block_layout() {
    let n = 2 * 65535 + 10;
    let data: Vec<u8> = (0..n).map(|i| (i % 7) as u8).collect();
    let out = gzip_compress(&data).unwrap();
    let k = (n + 65534) / 65535;
    assert_eq!(k, 3);
    assert_eq!(out.len(), 18 + 5 * k + n);
    for i in 0..k {
        let off = 10 + 65540 * i;
        let lo = 65535 * i;
        let len = std::cmp::min(65535, n - lo);
        assert_eq!(out[off], (i == k - 1) as u8);
        assert_eq!(&out[off + 1..off + 3], &(len as u16).to_le_bytes());
        assert_eq!(&out[off + 3..off + 5], &(!(len as u16)).to_le_bytes());
        assert_eq!(&out[off + 5..off + 5 + len], &data[lo..lo + len]);
    }
    assert_eq!(&out[out.len() - 8..out.len() - 4], &crc32(&data).to_le_bytes());
    assert_eq!(&out[out.len() - 4..], &(n as u32).to_le_bytes());
}

#[test]
fn index_page_ignores_artifact_order() {
    let list = |paths: &[&str]| -> Vec<Metadata> { paths.iter().map(|p| artifact(p, 1, None)).collect() };
    let one = PypiFormatHandler::generate_index(list(&["b-1.zip", "A-2.tar.gz", "c-1-py3-none-any.whl"]))
        .unwrap()
        .unwrap();
    let two = PypiFormatHandler::generate_index(list(&["c-1-py3-none-any.whl", "b-1.zip", "A-2.tar.gz", "b-1.zip"]))
        .unwrap()
        .unwrap();
    assert_eq!(one[0], two[0]);
}
