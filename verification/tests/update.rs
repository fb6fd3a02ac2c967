use dsh_desktop::update::{
    evaluate_release, normalize_tag, parse_release_json, validate_release_url, ReleasePayload,
    RELEASES_PAGE_URL,
};

#[test]
fn release_url_accepts_project_release_pages_only() {
    assert!(validate_release_url(
        "https://github.com/jockiller/dsh-desktop/releases"
    ));
    assert!(validate_release_url(
        "https://github.com/jockiller/dsh-desktop/releases/"
    ));
    assert!(validate_release_url(
        "https://github.com/jockiller/dsh-desktop/releases/tag/v0.2.0"
    ));
    assert!(validate_release_url(
        "https://github.com/jockiller/dsh-desktop/releases/latest"
    ));
    assert!(validate_release_url(
        "  https://github.com/jockiller/dsh-desktop/releases/tag/v1.0.0  "
    ));
}

#[test]
fn release_url_rejects_other_schemes_hosts_and_paths() {
    assert!(!validate_release_url(
        "http://github.com/jockiller/dsh-desktop/releases"
    ));
    assert!(!validate_release_url(
        "https://github.com/jockiller/dsh-desktop"
    ));
    assert!(!validate_release_url(
        "https://github.com/jockiller/dsh-desktop/actions"
    ));
    assert!(!validate_release_url(
        "https://github.com/jockiller/dsh-desktop/releasesX"
    ));
    assert!(!validate_release_url(
        "https://github.com/evil/dsh-desktop/releases"
    ));
    assert!(!validate_release_url(
        "https://evil.com/jockiller/dsh-desktop/releases"
    ));
    assert!(!validate_release_url(
        "https://github.com/jockiller/dsh-desktop/releases/tag/v1%2e0"
    ));
    assert!(!validate_release_url(
        "https://github.com/jockiller/dsh-desktop/releases/../admin"
    ));
    assert!(!validate_release_url("javascript:alert(1)"));
    assert!(!validate_release_url(""));
    assert!(!validate_release_url("   "));
}

#[test]
fn release_json_parses_github_payload() {
    let (tag_name, html_url, body) = parse_release_json(Some(ReleasePayload {
        tag_name: Some("v0.2.0".into()),
        html_url: Some("https://github.com/jockiller/dsh-desktop/releases/tag/v0.2.0".into()),
        body: Some("## 修复\n- 一键安装".into()),
    }))
    .unwrap();
    assert_eq!(tag_name, "v0.2.0");
    assert_eq!(
        html_url,
        "https://github.com/jockiller/dsh-desktop/releases/tag/v0.2.0"
    );
    assert_eq!(body.as_deref(), Some("## 修复\n- 一键安装"));
    assert!(parse_release_json(Some(ReleasePayload {
        tag_name: None,
        html_url: Some("https://x".into()),
        body: None,
    }))
    .is_none());
    assert!(parse_release_json(None).is_none());
    let (_, _, body) = parse_release_json(Some(ReleasePayload {
        tag_name: Some("v1".into()),
        html_url: None,
        body: None,
    }))
    .unwrap();
    assert_eq!(body, None);
}

#[test]
fn evaluate_release_compares_semver_with_prerelease() {
    let update = evaluate_release(
        "v0.2.0",
        "https://github.com/jockiller/dsh-desktop/releases/tag/v0.2.0",
        Some("## 更新内容\n- 修复一键安装"),
        "0.1.0",
    );
    assert_eq!(update.latest_version, Some("0.2.0".into()));
    assert_eq!(
        update.release_url,
        Some("https://github.com/jockiller/dsh-desktop/releases/tag/v0.2.0".into())
    );
    assert!(update.update_available);
    assert_eq!(update.notes, Some("## 更新内容\n- 修复一键安装".into()));
    let update = evaluate_release("v0.1.1-rc.1", "", None, "0.1.0");
    assert_eq!(update.latest_version.as_deref(), Some("0.1.1-rc.1"));
    assert!(update.update_available);
    let update = evaluate_release("v0.1.0", "", None, "0.2.0");
    assert!(!update.update_available);
    assert_eq!(update.latest_version.as_deref(), Some("0.1.0"));
    assert!(!evaluate_release("0.1.0", "", None, "0.1.0").update_available);
}

#[test]
fn evaluate_release_falls_back_when_payload_is_invalid() {
    let update = evaluate_release("nightly-2024", "", None, "0.1.0");
    assert_eq!(update.latest_version, None);
    assert_eq!(update.release_url, None);
    assert!(!update.update_available);
    assert_eq!(update.notes, None);
    let update = evaluate_release(
        "v0.2.0",
        "https://evil.com/jockiller/dsh-desktop/releases/tag/v0.2.0",
        None,
        "0.1.0",
    );
    assert_eq!(update.release_url.as_deref(), Some(RELEASES_PAGE_URL));
}

#[test]
fn a_build_of_the_same_version_is_no_update() {
    assert!(!evaluate_release("v1.0.0-beta.1", "", None, "1.0.0").update_available);
    assert_eq!(normalize_tag("v1.2.3+build.4").as_deref(), Some("1.2.3+build.4"));
    assert_eq!(normalize_tag(" V "), None);
}
