use dsh_desktop::config::PlatformTarget;
use dsh_desktop::managed::{
    archive_top_dir, expected_checksum, is_windows_network_path, marker_mirror, node_archive_name,
    node_bin_dir, read_marker, script_path, validate_relative_path, Marker, MarkerFile,
    MANAGED_SCHEMA,
};
use dsh_desktop::search_path::split_paths;

#[test]
fn checksum_manifest_requires_exact_filename() {
    let manifest = "abc  node-v22.tar.gz\ndef *node-v24.tar.gz\n";
    assert_eq!(
        expected_checksum(manifest, "node-v24.tar.gz").unwrap(),
        "def"
    );
    assert!(expected_checksum(manifest, "node-v2.tar.gz").is_err());
}

#[test]
fn archive_paths_reject_traversal() {
    for host in [PlatformTarget::Unix, PlatformTarget::MacOS, PlatformTarget::Windows] {
        assert!(validate_relative_path(host, "node/bin/node").is_ok());
        assert!(validate_relative_path(host, "../node").is_err());
        assert!(validate_relative_path(host, "/node").is_err());
    }
}

#[test]
fn archive_name_has_expected_shape() {
    for host in [PlatformTarget::Unix, PlatformTarget::MacOS, PlatformTarget::Windows] {
        for arm in [false, true] {
            let name = node_archive_name(host, arm, "v22.19.0");
            assert!(name.starts_with("node-v22.19.0-"));
            assert_eq!(
                archive_top_dir(&name),
                name.trim_end_matches(".tar.gz").trim_end_matches(".zip")
            );
        }
    }
}

#[test]
fn marker_rejects_other_schema() {
    let marker = Marker {
        schema: 2,
        node_version: "22.0.0".into(),
        dsh_version: "0.1.0".into(),
        use_mirror: false,
    };
    assert_ne!(marker.schema, MANAGED_SCHEMA);
    assert_eq!(
        read_marker(MarkerFile::Read(marker)).unwrap_err(),
        "托管环境标记版本不受支持"
    );
}

#[test]
fn marker_mirror_follows_saved_marker() {
    let saved = MarkerFile::Read(Marker {
        schema: MANAGED_SCHEMA,
        node_version: "22.0.0".into(),
        dsh_version: "0.1.0".into(),
        use_mirror: true,
    });
    assert!(marker_mirror(Some(saved)));
    let missing = MarkerFile::Missing;
    assert!(!marker_mirror(Some(missing)));
    assert!(!marker_mirror(None));
}

#[test]
fn script_path_puts_managed_node_bin_first() {
    for (host, existing) in [
        (PlatformTarget::Windows, r"C:\Windows;C:\Tools"),
        (PlatformTarget::Unix, "/usr/bin:/usr/local/bin"),
    ] {
        let node_root = "/node-root";
        let joined = script_path(host, node_root, Some(existing.as_bytes()));
        let entries = split_paths(host, &joined);
        assert_eq!(entries.first().unwrap(), node_bin_dir(host, node_root).as_bytes());
        let original = split_paths(host, existing.as_bytes());
        assert_eq!(&entries[1..], original.as_slice());
    }
}

#[test]
fn script_path_without_inherited_path_keeps_only_node() {
    for host in [PlatformTarget::Windows, PlatformTarget::Unix] {
        let node_root = "/node-root";
        let joined = script_path(host, node_root, None);
        assert_eq!(
            split_paths(host, &joined),
            vec![node_bin_dir(host, node_root).into_bytes()]
        );
    }
}

#[test]
fn windows_network_paths_are_detected() {
    assert!(is_windows_network_path(r"\\Mac\Home\Downloads\td"));
    assert!(is_windows_network_path("//Mac/Home/Downloads/td"));
    assert!(!is_windows_network_path("C:\\Users\\me\\dsh"));
    assert!(!is_windows_network_path("C:/Users/me/dsh"));
}

#[test]
fn script_path_keeps_managed_node_first_even_with_separator_entries() {
    let joined = script_path(PlatformTarget::Windows, r"C:\no;de", Some(r"C:\bin".as_bytes()));
    let text = String::from_utf8(joined).unwrap();
    assert!(text.starts_with(&format!(
        r#""{}""#,
        node_bin_dir(PlatformTarget::Windows, r"C:\no;de")
    )));
    assert!(text.contains(r"C:\bin"));

    let joined = script_path(PlatformTarget::Unix, "/node:root", Some("/usr/bin".as_bytes()));
    let text = String::from_utf8(joined).unwrap();
    assert!(text.starts_with(&node_bin_dir(PlatformTarget::Unix, "/node:root")));
    assert!(!text.contains('"'));
    assert!(text.contains("/usr/bin"));
}
