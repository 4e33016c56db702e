use meta_mystia_manager::config::{network_retry_config, uninstall_retry_config, UninstallMode};
use meta_mystia_manager::consolidate::{parse_version, plan_consolidation};
use meta_mystia_manager::download::{
    after_attempt, bepinex_mirror_key, body_snippet, classify_status, file_api_url,
    parse_share_code_from_url, select_plugin_asset, FetchStep, Source, StatusVerdict,
};
use meta_mystia_manager::error::{map_io_error_to_uninstall_error, IoErrorKind, ManagerError};
use meta_mystia_manager::extractor::{is_safe_path, ArchiveEntry, Extractor};
use meta_mystia_manager::file_ops::{
    backup_paths_with_index, backup_with_index, count_results, deletion_next,
    extract_failed_files, normalize_path_for_glob, scan_existing_files, verdict_result,
    DeletionEvent, DeletionResult, DeletionStatus, DeletionStep, FsEntry, RemoveFailure, Verdict,
};
use meta_mystia_manager::file_ops::{BatchAction, DeletionBatch};
use meta_mystia_manager::model::VersionInfo;
use meta_mystia_manager::naming::indexed_name_text;
use meta_mystia_manager::rate_limit::{chunk_size, TokenBucket};
use meta_mystia_manager::retry::{RetryDecision, RetryPolicy, Retrier};
use meta_mystia_manager::text::{decimal_text, trim};

fn s(x: &str) -> String {
    x.to_string()
}

fn info() -> VersionInfo {
    VersionInfo {
        bep_in_ex: s(" 6.0.0-be.733 # BepInEx-Unity.IL2CPP-win-x64.zip "),
        manager: s(" 0.4.1 "),
        dlls: vec![s("0.9.0"), s("0.8.0")],
        zips: vec![s("1.2.0")],
    }
}

#[test]
fn retry_delay_sequence_is_capped() {
    let p = RetryPolicy { attempts: 3, base_delay_secs: 5, multiplier: 2, max_delay_secs: 15 };
    let d: Vec<u64> = (0..3).map(|n| p.delay_for_attempt(n)).collect();
    assert_eq!(d, vec![5, 10, 15]);
    assert_eq!(p.delay_for_attempt(40), 15);
    assert_eq!(network_retry_config(), p);
    let u = uninstall_retry_config();
    assert_eq!((0..4).map(|n| u.delay_for_attempt(n)).collect::<Vec<_>>(), vec![10, 20, 40, 60]);
}

#[test]
fn retry_zero_multiplier_stops_waiting() {
    let p = RetryPolicy { attempts: 4, base_delay_secs: 7, multiplier: 0, max_delay_secs: 5 };
    assert_eq!(p.delay_for_attempt(0), 5);
    assert_eq!(p.delay_for_attempt(1), 0);
    assert_eq!(p.delay_for_attempt(3), 0);
}

#[test]
fn primary_fails_twice_then_succeeds_with_two_retry_notices() {
    // Simulated source: HTTP 500, HTTP 500, HTTP 200.
    let responses = [500u16, 500, 200];
    let mut retrier = Retrier::new(network_retry_config());
    let mut notices = 0;
    let mut total_wait = 0;
    let mut outcome = None;
    for status in responses {
        if classify_status(status, None) == StatusVerdict::Success {
            outcome = Some(true);
            break;
        }
        match retrier.on_failure() {
            RetryDecision::Retry { delay_secs, .. } => {
                notices += 1;
                total_wait += delay_secs;
            }
            RetryDecision::GiveUp => {
                outcome = Some(false);
                break;
            }
        }
    }
    assert_eq!(outcome, Some(true));
    assert_eq!(notices, 2);
    assert_eq!(total_wait, 15);
}

#[test]
fn retrier_gives_up_after_last_attempt() {
    let mut r = Retrier::new(RetryPolicy { attempts: 2, base_delay_secs: 1, multiplier: 3, max_delay_secs: 9 });
    assert_eq!(r.on_failure(), RetryDecision::Retry { delay_secs: 1, attempt: 1, attempts: 2 });
    assert_eq!(r.on_failure(), RetryDecision::GiveUp);
}

#[test]
fn version_info_accessors() {
    let vi = info();
    assert!(vi.validate().is_ok());
    assert_eq!(vi.latest_dll(), "0.9.0");
    assert_eq!(vi.latest_resourceex(), "1.2.0");
    assert_eq!(vi.bepinex_version().unwrap(), "6.0.0-be.733");
    assert_eq!(vi.bepinex_filename().unwrap(), "BepInEx-Unity.IL2CPP-win-x64.zip");
    assert_eq!(VersionInfo::metamystia_filename(" 0.9.0\n"), "MetaMystia-v0.9.0.dll");
    assert_eq!(VersionInfo::resourceex_filename("1.2.0"), "ResourceExample-v1.2.0.zip");
    assert_eq!(vi.manager_filename(), "meta-mystia-manager-v0.4.1.exe");
}

#[test]
fn version_info_without_separator_fails() {
    let mut vi = info();
    vi.bep_in_ex = s("6.0.0");
    assert_eq!(vi.bepinex_filename(), Err(ManagerError::InvalidVersionInfo));
    assert_eq!(vi.bepinex_version(), Err(ManagerError::InvalidVersionInfo));
    vi.dlls.clear();
    assert_eq!(vi.validate(), Err(ManagerError::InvalidVersionInfo));
    let mut vi2 = info();
    vi2.zips.clear();
    assert_eq!(vi2.validate(), Err(ManagerError::InvalidVersionInfo));
}

#[test]
fn trim_and_decimal() {
    assert_eq!(trim("\t a b \u{3000}"), "a b");
    assert_eq!(trim("   "), "");
    assert_eq!(decimal_text(0), "0");
    assert_eq!(decimal_text(1024), "1024");
}

#[test]
fn consolidation_picks_highest_semver() {
    let names = vec![s("Name-v1.0.0.ext"), s("Name-v2.0.0.ext"), s("Name-v1.5.0.ext")];
    let c = plan_consolidation(&names, "Name-v", ".ext").unwrap();
    assert_eq!(c.version, "2.0.0");
    assert_eq!(c.latest, "Name-v2.0.0.ext");
    assert_eq!(c.latest_index, 1);
    assert_eq!(c.to_backup, vec![s("Name-v1.0.0.ext"), s("Name-v1.5.0.ext")]);
    let backups = backup_paths_with_index(&c.to_backup, "old", &vec![s("Name-v1.0.0.ext.old")]);
    assert_eq!(backups, vec![s("Name-v1.0.0.ext.old.1"), s("Name-v1.5.0.ext.old")]);
}

#[test]
fn consolidation_falls_back_to_name_order() {
    let names = vec![s("Name-v9.dll"), s("Name-v10.dll")];
    let c = plan_consolidation(&names, "Name-v", ".dll").unwrap();
    assert_eq!(c.version, "Name-v9.dll");
    assert_eq!(c.to_backup, vec![s("Name-v10.dll")]);
    assert!(plan_consolidation(&vec![], "Name-v", ".dll").is_none());
}

#[test]
fn consolidation_demotes_unparsed_beside_parsed() {
    let names = vec![s("Name-vbroken.dll"), s("Name-v0.1.0.dll")];
    let c = plan_consolidation(&names, "Name-v", ".dll").unwrap();
    assert_eq!(c.version, "0.1.0");
    assert_eq!(c.to_backup, vec![s("Name-vbroken.dll")]);
    assert_eq!(parse_version("Name-v1.2.3-rc.1.dll", "Name-v", ".dll"), Some(s("1.2.3-rc.1")));
    assert_eq!(parse_version("Other-v1.2.3.dll", "Name-v", ".dll"), None);
}

#[test]
fn backup_names_probe_upward() {
    let taken = vec![s("a.dll.old"), s("a.dll.old.1"), s("a.dll.old.3")];
    assert_eq!(backup_with_index("a.dll", "old", &taken), "a.dll.old.2");
    assert_eq!(backup_with_index("b.dll", "old", &taken), "b.dll.old");
    assert_eq!(indexed_name_text("x", "tmp", 12), "x.tmp.12");
}

#[test]
fn deletion_of_missing_path_is_skipped() {
    let step = deletion_next(DeletionStep::Probe, DeletionEvent::Exists(false));
    assert_eq!(step, DeletionStep::Finished(Verdict::Skipped));
    let step = deletion_next(DeletionStep::Probe, DeletionEvent::Exists(true));
    let step = deletion_next(step, DeletionEvent::Removed(Some(RemoveFailure::NotFound)));
    assert_eq!(step, DeletionStep::Finished(Verdict::Skipped));
}

#[test]
fn deletion_machine_other_paths() {
    let s1 = deletion_next(DeletionStep::Remove, DeletionEvent::Removed(Some(RemoveFailure::PermissionDenied)));
    assert_eq!(s1, DeletionStep::RetryWritable);
    let gone = deletion_next(s1, DeletionEvent::Removed(None));
    assert_eq!(gone, DeletionStep::VerifyGone);
    assert_eq!(deletion_next(gone, DeletionEvent::Exists(false)), DeletionStep::Finished(Verdict::Success));
    assert_eq!(deletion_next(gone, DeletionEvent::Exists(true)), DeletionStep::Finished(Verdict::StillExists));
    assert_eq!(
        deletion_next(s1, DeletionEvent::Removed(Some(RemoveFailure::PermissionDenied))),
        DeletionStep::Finished(Verdict::PermissionDenied)
    );
    let v = deletion_next(DeletionStep::Remove, DeletionEvent::Removed(None));
    assert_eq!(deletion_next(v, DeletionEvent::Exists(true)), DeletionStep::Finished(Verdict::StillExists));
    assert_eq!(
        deletion_next(DeletionStep::Remove, DeletionEvent::Removed(Some(RemoveFailure::InUse))),
        DeletionStep::Finished(Verdict::InUse)
    );
}

#[test]
fn results_are_counted_and_failures_listed() {
    let results = vec![
        verdict_result(Verdict::Success, "a", IoErrorKind::Other, s("x")),
        verdict_result(Verdict::InUse, "b", IoErrorKind::Other, s("x")),
        verdict_result(Verdict::Skipped, "c", IoErrorKind::Other, s("x")),
        verdict_result(Verdict::Other, "d", IoErrorKind::Other, s("boom")),
    ];
    assert_eq!(count_results(&results), (1, 2, 1));
    assert_eq!(extract_failed_files(&results), vec![s("b"), s("d")]);
    assert_eq!(results[1].status, DeletionStatus::Failed(ManagerError::FileInUse(s("b"))));
    assert_eq!(
        results[3],
        DeletionResult {
            path: s("d"),
            status: DeletionStatus::Failed(ManagerError::Io { kind: IoErrorKind::Other, message: s("boom") }),
        }
    );
}

#[test]
fn sharing_violation_maps_to_file_in_use() {
    assert_eq!(
        map_io_error_to_uninstall_error(Some(32), IoErrorKind::Other, s("x"), "p", true),
        ManagerError::FileInUse(s("p"))
    );
    assert_eq!(
        map_io_error_to_uninstall_error(Some(32), IoErrorKind::Other, s("x"), "p", false),
        ManagerError::Io { kind: IoErrorKind::Other, message: s("x") }
    );
}

fn entry(p: &str, d: bool) -> FsEntry {
    FsEntry { path: s(p), is_dir: d }
}

#[test]
fn uninstall_scan_light_and_full() {
    let only_plugin = vec![entry("BepInEx", true), entry("BepInEx/plugins", true), entry("BepInEx/plugins/MetaMystia-v1.0.0.dll", false)];
    assert_eq!(
        scan_existing_files("G", UninstallMode::Light, &only_plugin),
        vec![s("G/BepInEx/plugins/MetaMystia-v1.0.0.dll")]
    );
    let mut with_framework = only_plugin.clone();
    with_framework.push(entry("winhttp.dll", false));
    with_framework.push(entry("doorstop_config.ini", false));
    assert_eq!(
        scan_existing_files("G", UninstallMode::Full, &with_framework),
        vec![s("G/BepInEx"), s("G/doorstop_config.ini"), s("G/winhttp.dll")]
    );
}

#[test]
fn extraction_rejects_traversal_and_absolute_paths() {
    for bad in ["../../evil.txt", "/etc/evil", "\\evil", "C:evil", "a/../../b"] {
        assert!(!is_safe_path(bad), "{bad}");
        let entries = vec![ArchiveEntry { name: s("ok.txt"), unix_mode: None, enclosed: true }, ArchiveEntry { name: s(bad), unix_mode: None, enclosed: true }];
        assert!(matches!(Extractor::extract_zip_safe(&entries, "D"), Err(ManagerError::ExtractFailed(_))));
    }
    assert!(is_safe_path("a/..b/c"));
}

#[test]
fn extraction_rejects_symlinks_and_skips_exclusions() {
    let link = vec![ArchiveEntry { name: s("x"), unix_mode: Some(0o120777), enclosed: true }];
    assert!(Extractor::extract_zip_safe(&link, "D").is_err());
    let entries = vec![
        ArchiveEntry { name: s("BepInEx/"), unix_mode: None, enclosed: true },
        ArchiveEntry { name: s("BepInEx/plugins/"), unix_mode: None, enclosed: true },
        ArchiveEntry { name: s("BepInEx/plugins/keep.dll"), unix_mode: Some(0o100644), enclosed: true },
        ArchiveEntry { name: s("BepInEx/pluginsX.txt"), unix_mode: None, enclosed: true },
        ArchiveEntry { name: s("winhttp.dll"), unix_mode: None, enclosed: true },
    ];
    let plan = Extractor::deploy_bepinex(&entries, "G", true).unwrap();
    let paths: Vec<(usize, String, bool)> = plan.into_iter().map(|p| (p.index, p.path, p.is_dir)).collect();
    assert_eq!(paths, vec![(0, s("G/BepInEx/"), true), (3, s("G/BepInEx/pluginsX.txt"), false), (4, s("G/winhttp.dll"), false)]);
    assert_eq!(Extractor::deploy_bepinex(&entries, "G", false).unwrap().len(), 5);
}

#[test]
fn share_code_is_last_segment() {
    assert_eq!(parse_share_code_from_url("https://x.cc/s/AbC123?x=1#f"), Some(s("AbC123")));
    assert_eq!(parse_share_code_from_url("https://x.cc/s/AbC123///"), Some(s("AbC123")));
    assert_eq!(parse_share_code_from_url("https://x.cc/s/?q"), None);
    assert_eq!(parse_share_code_from_url(""), None);
}

#[test]
fn urls_and_keys() {
    assert_eq!(file_api_url("CODE", "a.zip"), "https://file.izakaya.cc/api/public/dl/CODE/a.zip");
    assert_eq!(bepinex_mirror_key("6.0.0-be.733", "B.zip"), "6%2E0%2E0%2Dbe%2E733%23B%2Ezip");
    assert_eq!(body_snippet(&"x".repeat(500)).len(), 200);
    assert_eq!(body_snippet("short"), "short");
    assert_eq!(normalize_path_for_glob("C:\\Games\\X"), "C:/Games/X");
}

#[test]
fn statuses_and_fallback() {
    assert_eq!(classify_status(204, None), StatusVerdict::Success);
    assert_eq!(classify_status(429, Some(5)), StatusVerdict::RateLimited { wait_secs: Some(5) });
    assert_eq!(classify_status(429, Some(31)), StatusVerdict::RateLimited { wait_secs: None });
    assert_eq!(classify_status(500, None), StatusVerdict::HttpError);
    assert_eq!(after_attempt(Source::Primary, false), FetchStep::SwitchToMirror);
    assert_eq!(after_attempt(Source::Mirror, false), FetchStep::Failed);
    assert_eq!(after_attempt(Source::Mirror, true), FetchStep::Finished(Source::Mirror));
    let names = vec![s("notes.md"), s("MetaMystia-v0.9.0.dll"), s("MetaMystia-v0.9.1.dll")];
    assert_eq!(select_plugin_asset(&names), Some(1));
    assert_eq!(select_plugin_asset(&vec![s("MetaMystia-v1.zip")]), None);
}

#[test]
fn token_bucket_throttles() {
    let mut b = TokenBucket::new(1000, 0);
    assert!(!b.try_consume(100));
    assert_eq!(b.wait_ms(100), 100);
    b.refill(100);
    assert!(b.try_consume(100));
    assert!(!b.try_consume(1));
    b.refill(5000);
    assert!(b.try_consume(1000));
    assert!(!b.try_consume(1));
    assert_eq!(chunk_size(131072), 8192);
    assert_eq!(chunk_size(100), 100);
}

#[test]
fn extraction_rejects_entries_the_reader_finds_unenclosed() {
    let entries = vec![ArchiveEntry { name: s("a.txt"), unix_mode: None, enclosed: false }];
    assert!(matches!(Extractor::extract_zip_safe(&entries, "D"), Err(ManagerError::ExtractFailed(_))));
}

#[test]
fn version_info_describe() {
    assert_eq!(info().describe(), "BepInEx: 6.0.0-be.733 # BepInEx-Unity.IL2CPP-win-x64.zip, dll: 0.9.0, zip: 1.2.0");
    let empty = VersionInfo { bep_in_ex: s("x"), manager: s("m"), dlls: vec![], zips: vec![] };
    assert_eq!(empty.describe(), "BepInEx: x, dll: , zip: ");
}

#[test]
fn throttled_reads_stay_within_rate_plus_chunk_per_second() {
    // 1000 B/s, chunks of 100 B, reads attempted every 10 ms for 3 s.
    let rate = 1000u64;
    let chunk = 100u64;
    let mut b = TokenBucket::new(rate, 0);
    let mut grants: Vec<u64> = Vec::new();
    for t in (0..3000u64).step_by(10) {
        b.refill(t);
        if b.try_consume(chunk) {
            grants.push(t);
        }
    }
    for start in 0..2000u64 {
        let in_window = grants.iter().filter(|&&t| t >= start && t <= start + 1000).count() as u64;
        assert!(in_window * chunk <= rate + chunk, "window at {start}: {in_window}");
    }
}

#[test]
fn batch_gives_every_path_one_result_in_order() {
    let mut batch = DeletionBatch::new(vec![s("gone"), s("locked"), s("plain")]);
    let mut script = vec![
        DeletionEvent::Exists(false),
        DeletionEvent::Exists(true),
        DeletionEvent::Removed(Some(RemoveFailure::InUse)),
        DeletionEvent::Exists(true),
        DeletionEvent::Removed(None),
        DeletionEvent::Exists(false),
    ]
    .into_iter();
    let mut seen = Vec::new();
    while let BatchAction::Observe { index, path, step } = batch.next_action() {
        seen.push((index, path, step));
        batch.feed(script.next().unwrap(), IoErrorKind::Other, s("x"));
    }
    assert_eq!(seen.len(), 6);
    assert_eq!(seen[3], (2, s("plain"), DeletionStep::Probe));
    let results = batch.into_results();
    let got: Vec<(String, DeletionStatus)> = results.into_iter().map(|r| (r.path, r.status)).collect();
    assert_eq!(
        got,
        vec![
            (s("gone"), DeletionStatus::Skipped),
            (s("locked"), DeletionStatus::Failed(ManagerError::FileInUse(s("locked")))),
            (s("plain"), DeletionStatus::Success),
        ]
    );
}
