use neoshell_core::updater::{
    is_newer_version, library_file_name, newer_update, platform_key, to_hex_lower, verify_md5,
    DownloadTable, PlatformDownload, TargetArch, TargetOs, UpdateInfo, UpdateState,
};

fn download(url: &str, md5: &str, size: u64) -> PlatformDownload {
    PlatformDownload { url: url.to_string(), md5: md5.to_string(), size }
}

fn info(version: &str) -> UpdateInfo {
    let mut downloads = DownloadTable::new();
    downloads.insert("linux-x86_64".to_string(), download("https://x/l.so", "aa", 10));
    downloads.insert("windows-x64".to_string(), download("https://x/w.dll", "bb", 20));
    UpdateInfo {
        version: version.to_string(),
        changelog: "fixes".to_string(),
        date: "2024-01-01".to_string(),
        downloads,
    }
}

#[test]
fn download_table_insert_replaces() {
    let mut t = DownloadTable::new();
    assert!(t.get("linux-x86_64").is_none());
    t.insert("linux-x86_64".to_string(), download("https://x/a", "aa", 1));
    t.insert("macos-aarch64".to_string(), download("https://x/m", "mm", 3));
    t.insert("linux-x86_64".to_string(), download("https://x/b", "bb", 2));
    let l = t.get("linux-x86_64").unwrap();
    assert_eq!(l.url, "https://x/b");
    assert_eq!(l.md5, "bb");
    assert_eq!(l.size, 2);
    assert_eq!(t.get("macos-aarch64").unwrap().url, "https://x/m");
    assert!(t.get("windows-x64").is_none());
}

#[test]
fn platform_keys() {
    assert_eq!(platform_key(TargetOs::MacOs, TargetArch::Aarch64), "macos-aarch64");
    assert_eq!(platform_key(TargetOs::MacOs, TargetArch::X86_64), "macos-x86_64");
    assert_eq!(platform_key(TargetOs::Windows, TargetArch::Aarch64), "windows-x64");
    assert_eq!(platform_key(TargetOs::Windows, TargetArch::X86_64), "windows-x64");
    assert_eq!(platform_key(TargetOs::Linux, TargetArch::X86_64), "linux-x86_64");
    assert_eq!(platform_key(TargetOs::Linux, TargetArch::Aarch64), "unknown");
    assert_eq!(platform_key(TargetOs::MacOs, TargetArch::Other), "unknown");
    assert_eq!(platform_key(TargetOs::Other, TargetArch::X86_64), "unknown");
}

#[test]
fn library_file_names() {
    assert_eq!(library_file_name(TargetOs::MacOs), "libneoshell_core.dylib");
    assert_eq!(library_file_name(TargetOs::Windows), "neoshell_core.dll");
    assert_eq!(library_file_name(TargetOs::Linux), "libneoshell_core.so");
    assert_eq!(library_file_name(TargetOs::Other), "libneoshell_core.so");
}

#[test]
fn version_comparison_is_string_order() {
    assert!(is_newer_version("0.2.0", "0.1.0"));
    assert!(!is_newer_version("0.1.0", "0.2.0"));
    assert!(!is_newer_version("0.1.0", "0.1.0"));
    assert!(is_newer_version("1.0.0", "1.0"));
    assert!(!is_newer_version("1.0", "1.0.0"));
    // a plain string comparison: "0.10.0" sorts before "0.9.0"
    assert!(!is_newer_version("0.10.0", "0.9.0"));
    assert!(is_newer_version("a", ""));
    assert!(!is_newer_version("", ""));
}

#[test]
fn version_order_laws_on_values() {
    let vs = ["", "0.1.0", "0.1.1", "0.2", "1.0.0", "é"];
    for a in vs {
        assert!(!is_newer_version(a, a));
        for b in vs {
            if is_newer_version(a, b) {
                assert!(!is_newer_version(b, a));
            }
            if a != b {
                assert!(is_newer_version(a, b) || is_newer_version(b, a));
            }
            for c in vs {
                if is_newer_version(a, b) && is_newer_version(b, c) {
                    assert!(is_newer_version(a, c));
                }
            }
        }
    }
}

#[test]
fn newer_update_offers_only_newer() {
    let offer = newer_update(info("0.3.0"), "0.2.9").unwrap();
    assert_eq!(offer.version, "0.3.0");
    assert!(newer_update(info("0.2.9"), "0.2.9").is_none());
    assert!(newer_update(info("0.1.0"), "0.2.9").is_none());
}

#[test]
fn download_lookup() {
    let i = info("1.0.0");
    let d = i.download_for("windows-x64").unwrap();
    assert_eq!(d.url, "https://x/w.dll");
    assert_eq!(d.size, 20);
    assert_eq!(
        i.download_for("unknown").unwrap_err(),
        "No download for platform: unknown"
    );
}

#[test]
fn hex_text() {
    assert_eq!(to_hex_lower(&[10, 20, 30]), "0a141e");
    assert_eq!(to_hex_lower(&[]), "");
    assert_eq!(to_hex_lower(&[0, 255, 171]), "00ffab");
    assert_eq!(to_hex_lower(&[1, 2, 3, 4]).len(), 8);
}

#[test]
fn md5_check_accepts_matching_digest() {
    assert_eq!(verify_md5(b"", "d41d8cd98f00b204e9800998ecf8427e"), Ok(()));
    assert_eq!(verify_md5(b"abc", "900150983cd24fb0d6963f7d28e17f72"), Ok(()));
}

#[test]
fn md5_check_reports_mismatch() {
    assert_eq!(
        verify_md5(b"abc", "00"),
        Err("MD5 mismatch: expected 00, got 900150983cd24fb0d6963f7d28e17f72".to_string())
    );
    assert!(verify_md5(b"abc", "900150983CD24FB0D6963F7D28E17F72").is_err());
}

#[test]
fn update_state_records() {
    let mut s = UpdateState::default();
    assert!(!s.available && !s.ready && s.error.is_none());
    assert_eq!(s.version, "");
    s.record_check(Ok(None));
    assert!(!s.available);
    s.record_check(Ok(Some(info("2.0.0"))));
    assert!(s.available);
    assert_eq!(s.version, "2.0.0");
    assert_eq!(s.changelog, "fixes");
    s.record_check(Err("HTTP error: timeout".to_string()));
    assert_eq!(s.error.as_deref(), Some("Update check failed: HTTP error: timeout"));
    assert!(s.available);
    s.record_progress(50, 200);
    assert_eq!((s.downloaded, s.total), (50, 200));
    s.record_download(Err("Read: reset".to_string()));
    assert_eq!(s.error.as_deref(), Some("Download failed: Read: reset"));
    assert!(!s.ready);
    s.record_download(Ok(()));
    assert!(s.ready);
}
