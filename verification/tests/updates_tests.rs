use flux::updates::{
    changelog_bullets, check_result, checksum_for, installer_file_name, is_newer, parse_version,
    pending_update, plan_update, release_notes, require_checksum, sha256_hex, verify_installer,
    CheckResult, Release, ReleaseAsset,
};

fn asset(name: &str, url: &str) -> ReleaseAsset {
    ReleaseAsset { name: name.to_string(), browser_download_url: url.to_string() }
}

const HASH: &str = "2cf24dba5fb0a30e26e83b2ac5b9e29e1b161e5c1fa7425e73043362938b9824";

#[test]
fn versions_parse_and_compare() {
    assert_eq!(parse_version("1.4.2"), (1, 4, 2));
    assert_eq!(parse_version("2.0-beta.3"), (2, 0, 3));
    assert_eq!(parse_version("3"), (3, 0, 0));
    assert_eq!(parse_version(""), (0, 0, 0));
    assert_eq!(parse_version("x.y"), (0, 0, 0));
    assert!(is_newer("1.10.0", "1.9.9"));
    assert!(!is_newer("1.2.3", "1.2.3"));
    assert!(!is_newer("1.2.2", "1.2.3"));
}

#[test]
fn changelog_keeps_only_bullets() {
    let body = "## What's new\r\n- Faster polling\r\n* Dark theme fix\nplain text\n  - indented bullet  \n";
    assert_eq!(changelog_bullets(body), "- Faster polling\n* Dark theme fix\n- indented bullet");
    assert_eq!(changelog_bullets("  Just a paragraph.  \n"), "Just a paragraph.");
    assert_eq!(changelog_bullets(""), "");
    // The bullets of a bullet list are the list itself.
    let once = changelog_bullets(body);
    assert_eq!(changelog_bullets(&once), once);
}

#[test]
fn checksum_files_are_read() {
    assert_eq!(checksum_for(&format!("{HASH}\n"), "setup.exe"), Some(HASH.to_string()));
    let sums = format!(
        "{other}  other.exe\n{HASH} *Fluxid-Setup.EXE\n",
        other = "0".repeat(64)
    );
    assert_eq!(checksum_for(&sums, "fluxid-setup.exe"), Some(HASH.to_string()));
    assert_eq!(checksum_for(&sums, "missing.exe"), None);
    assert_eq!(checksum_for("deadbeef\n", "x.exe"), None);
    assert_eq!(checksum_for("", "x.exe"), None);
}

#[test]
fn newer_release_with_installer_is_planned() {
    let release = Release {
        tag_name: "v1.5.0".to_string(),
        body: "- notes".to_string(),
        assets: vec![
            asset("README.md", "https://x/readme"),
            asset("Fluxid-Setup.EXE", "https://x/Fluxid-Setup.EXE"),
            asset("fluxid-setup.exe.sha256", "https://x/sum"),
        ],
    };
    let plan = plan_update("1.4.9", &release).unwrap();
    assert_eq!(plan.version, "1.5.0");
    assert_eq!(plan.url, "https://x/Fluxid-Setup.EXE");
    assert_eq!(plan.exe_name, "Fluxid-Setup.EXE");
    assert_eq!(plan.checksum_url.as_deref(), Some("https://x/sum"));
    assert!(plan_update("1.5.0", &release).is_none());
    let no_exe = Release { tag_name: "9.0.0".into(), body: String::new(), assets: vec![asset("a.zip", "u")] };
    assert!(plan_update("1.0.0", &no_exe).is_none());
}

#[test]
fn sha256sums_asset_is_found() {
    let release = Release {
        tag_name: "2.0.0".into(),
        body: String::new(),
        assets: vec![asset("setup.exe", "https://x/setup.exe"), asset("SHA256SUMS.txt", "https://x/sums")],
    };
    let plan = plan_update("1.0.0", &release).unwrap();
    assert_eq!(plan.checksum_url.as_deref(), Some("https://x/sums"));
    let update = pending_update(plan, Some(format!("{HASH}  setup.exe\n")));
    assert_eq!(update.sha256.as_deref(), Some(HASH));
    assert_eq!(update.version, "2.0.0");
}

#[test]
fn check_results_map() {
    assert!(matches!(check_result(Ok(None)), CheckResult::UpToDate));
    assert!(matches!(check_result(Err("HTTP 500".into())), CheckResult::Failed(e) if e == "HTTP 500"));
}

#[test]
fn release_notes_are_trimmed() {
    let r = Release { tag_name: "v1".into(), body: "\n notes \n".into(), assets: vec![] };
    assert_eq!(release_notes(&r), ("v1".to_string(), "notes".to_string()));
}

#[test]
fn installer_integrity_gate() {
    assert_eq!(sha256_hex(b"hello"), HASH);
    assert!(verify_installer(b"hello", &format!("  {}  ", HASH.to_uppercase())).is_ok());
    assert_eq!(
        verify_installer(b"hello!", HASH).unwrap_err(),
        "Integrity check failed (checksum mismatch) — update aborted"
    );
    assert_eq!(
        require_checksum(None).unwrap_err(),
        "No checksum published for this release — update aborted for safety"
    );
    assert_eq!(require_checksum(Some("abc".into())).unwrap(), "abc");
}

#[test]
fn installer_file_names() {
    assert_eq!(installer_file_name("https://x/dl/Fluxid-Setup.exe"), "Fluxid-Setup.exe");
    assert_eq!(installer_file_name("https://x/dl/"), "fluxid-setup.exe");
    assert_eq!(installer_file_name("setup.exe"), "setup.exe");
}
