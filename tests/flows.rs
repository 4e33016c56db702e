use meta_mystia_manager::atomic::{place_next, temp_name_for, PlaceStep};
use meta_mystia_manager::cli::{Cli, CliOperation, InstallConfig, UninstallModeArg};
use meta_mystia_manager::config::UninstallMode;
use meta_mystia_manager::download::{VersionCache, SNIPPET_CHARS};
use meta_mystia_manager::error::{IoErrorKind, ManagerError};
use meta_mystia_manager::file_ops::{glob_filter, verdict_result, FsEntry, Verdict};
use meta_mystia_manager::installer::{
    ask_about_resourceex, choose_version, bepinex_config_text, install_cleanup_targets, IL2CPP_SECTION, LOGGING_SECTION,
};
use meta_mystia_manager::model::VersionInfo;
use meta_mystia_manager::retry::RetryPolicy;
use meta_mystia_manager::shutdown::{register_cleanup, ShutdownCoordinator};
use meta_mystia_manager::temp_dir::{temp_dir_path, DirGuard, TempDirRegistry};
use meta_mystia_manager::uninstall::{
    failures_of, merge_results, next_resolution, retry_order, FailureClass, Resolution, Uninstaller,
};
use meta_mystia_manager::upgrade::{has_updates, plan_upgrade, require_installed, superseded_files, UpgradePlan};

fn s(x: &str) -> String {
    x.to_string()
}

#[test]
fn placement_renames_or_copies_then_renames() {
    assert_eq!(place_next(PlaceStep::Rename, true), PlaceStep::Done);
    let copy = place_next(PlaceStep::Rename, false);
    assert_eq!(copy, PlaceStep::CopyToTemp);
    assert_eq!(place_next(copy, false), PlaceStep::Failed);
    let rename = place_next(copy, true);
    assert_eq!(rename, PlaceStep::RenameTemp);
    assert_eq!(place_next(rename, false), PlaceStep::DiscardTemp);
    assert_eq!(place_next(PlaceStep::DiscardTemp, true), PlaceStep::Failed);
    let cleanup = place_next(rename, true);
    assert_eq!(cleanup, PlaceStep::RemoveSource);
    assert_eq!(place_next(cleanup, false), PlaceStep::Done);
    assert_eq!(temp_name_for("d/a.zip", &vec![s("d/a.zip.tmp")]), "d/a.zip.tmp.1");
    assert_eq!(temp_name_for("d/a.zip", &vec![]), "d/a.zip.tmp");
}

#[test]
fn cli_selects_operation_by_priority() {
    let mut cli = Cli {
        path: Some(s("G")),
        skip_self_update: true,
        quiet: false,
        install: false,
        no_resourceex: true,
        with_bepinex_console: true,
        dll_version: Some(s("0.9.0")),
        resourceex_version: None,
        upgrade: false,
        uninstall: false,
        mode: UninstallModeArg::Full,
    };
    assert!(cli.to_config().is_none());
    cli.uninstall = true;
    assert_eq!(cli.to_config().unwrap().operation, CliOperation::Uninstall(UninstallMode::Full));
    cli.upgrade = true;
    assert_eq!(cli.to_config().unwrap().operation, CliOperation::Upgrade);
    cli.install = true;
    let c = cli.to_config().unwrap();
    assert_eq!(c.game_path, Some(s("G")));
    assert!(c.skip_self_update);
    assert_eq!(
        c.operation,
        CliOperation::Install(InstallConfig {
            install_resourceex: false,
            show_bepinex_console: true,
            dll_version: Some(s("0.9.0")),
            resourceex_version: None,
        })
    );
    assert_eq!(UninstallMode::from(UninstallModeArg::Light), UninstallMode::Light);
}

#[test]
fn upgrade_plan_compares_versions() {
    assert!(matches!(plan_upgrade(&None, &None, "1", "2"), Err(ManagerError::Other(_))));
    assert_eq!(
        plan_upgrade(&Some(s("0.8.0")), &Some(s("1.0.0")), "0.9.0", "1.0.0").unwrap(),
        UpgradePlan { dll_needs_upgrade: true, has_resourceex: true, resourceex_needs_upgrade: false }
    );
    assert_eq!(
        plan_upgrade(&Some(s("0.9.0")), &Some(s("")), "0.9.0", "1.1.0").unwrap(),
        UpgradePlan { dll_needs_upgrade: false, has_resourceex: false, resourceex_needs_upgrade: false }
    );
    assert!(matches!(require_installed(&None), Err(ManagerError::Other(_))));
    assert_eq!(require_installed(&Some(s("1"))), Ok(()));
    assert_eq!(has_updates(&Some(s("1")), &None, "2", "3"), (true, false));
    assert_eq!(has_updates(&Some(s("2")), &Some(s("1")), "2", "3"), (false, true));
}

#[test]
fn superseded_skips_new_file_and_backups() {
    let existing = vec![s("MetaMystia-v0.8.0.dll"), s("MetaMystia-v0.9.0.dll"), s("MetaMystia-v0.7.0.dll.old"), s("x.old")];
    assert_eq!(superseded_files(&existing, "MetaMystia-v0.9.0.dll"), vec![s("MetaMystia-v0.8.0.dll")]);
}

fn failed(v: Verdict, p: &str) -> meta_mystia_manager::file_ops::DeletionResult {
    verdict_result(v, p, IoErrorKind::Other, s("x"))
}

#[test]
fn uninstall_resolution_steps() {
    let policy = RetryPolicy { attempts: 3, base_delay_secs: 10, multiplier: 2, max_delay_secs: 60 };
    let ok = vec![failed(Verdict::Success, "a"), failed(Verdict::Skipped, "b")];
    assert_eq!(next_resolution(&ok, 0, &policy, false, false), Resolution::Done);

    let mixed = vec![failed(Verdict::InUse, "a"), failed(Verdict::PermissionDenied, "b"), failed(Verdict::Other, "c")];
    assert_eq!(
        next_resolution(&mixed, 1, &policy, false, false),
        Resolution::RetryInUse { delay_secs: 20, attempt: 2, attempts: 3, paths: vec![s("a")] }
    );
    assert_eq!(next_resolution(&mixed, 3, &policy, false, false), Resolution::OfferElevation);
    assert_eq!(next_resolution(&mixed, 3, &policy, false, true), Resolution::OfferManualRetry);
    assert_eq!(next_resolution(&mixed, 3, &policy, true, false), Resolution::OfferManualRetry);

    assert_eq!(failures_of(&mixed, FailureClass::Permission), vec![s("b")]);
    let perm = vec![s("b"), s("c")];
    let other = vec![s("c"), s("d")];
    assert_eq!(retry_order(&perm, &other, true), vec![s("b"), s("c"), s("d")]);
    assert_eq!(retry_order(&perm, &other, false), vec![s("c"), s("d"), s("b")]);
    assert_eq!(Uninstaller::new(s("G")).game_root, "G");
}

#[test]
fn merged_results_replace_retried_paths() {
    let mut all = vec![failed(Verdict::InUse, "a"), failed(Verdict::Success, "b"), failed(Verdict::InUse, "c")];
    merge_results(&mut all, vec![failed(Verdict::Success, "c"), failed(Verdict::Success, "a")]);
    let paths: Vec<&str> = all.iter().map(|r| r.path.as_str()).collect();
    assert_eq!(paths, vec!["b", "c", "a"]);
    assert!(failures_of(&all, FailureClass::InUse).is_empty());
}

#[test]
fn install_cleanup_keeps_plugins_directory() {
    let listing = vec![
        FsEntry { path: s("BepInEx"), is_dir: true },
        FsEntry { path: s("BepInEx/Plugins"), is_dir: true },
        FsEntry { path: s("BepInEx/core"), is_dir: true },
        FsEntry { path: s("BepInEx/core/BepInEx.Core.dll"), is_dir: false },
        FsEntry { path: s("BepInEx/plugins/MetaMystia-v0.8.0.dll"), is_dir: false },
        FsEntry { path: s("BepInEx/plugins/Other.dll"), is_dir: false },
        FsEntry { path: s("ResourceEx/ResourceExample-v1.0.0.zip"), is_dir: false },
        FsEntry { path: s("winhttp.dll"), is_dir: false },
        FsEntry { path: s("save.dat"), is_dir: false },
    ];
    assert_eq!(
        install_cleanup_targets("G", &listing),
        vec![
            s("G/BepInEx/core"),
            s("G/BepInEx/plugins/MetaMystia-v0.8.0.dll"),
            s("G/ResourceEx/ResourceExample-v1.0.0.zip"),
            s("G/winhttp.dll"),
        ]
    );
    assert!(!ask_about_resourceex(true, true));
    assert!(ask_about_resourceex(true, false));
    assert!(ask_about_resourceex(false, true));
}

#[test]
fn framework_config_sections() {
    assert_eq!(bepinex_config_text(true, true), "");
    assert_eq!(bepinex_config_text(false, true), LOGGING_SECTION);
    assert_eq!(bepinex_config_text(true, false), IL2CPP_SECTION);
    assert_eq!(bepinex_config_text(false, false), format!("{}\n{}", LOGGING_SECTION, IL2CPP_SECTION));
}

#[test]
fn cleanup_tasks_run_once() {
    let mut c = ShutdownCoordinator::new();
    assert_eq!(register_cleanup(&mut c), 0);
    assert_eq!(register_cleanup(&mut c), 1);
    assert_eq!(c.begin_shutdown(), vec![0, 1]);
    assert!(c.begin_shutdown().is_empty());
}

#[test]
fn temp_dirs_are_listed_once() {
    let mut r = TempDirRegistry::new();
    let g = DirGuard::new(temp_dir_path("G"), &mut r);
    assert_eq!(g.path, "G/.meta-mystia-tmp");
    r.register(s("G/.meta-mystia-tmp"));
    r.register(s("H"));
    assert_eq!(r.dirs(), &vec![s("G/.meta-mystia-tmp"), s("H")]);
    r.unregister("G/.meta-mystia-tmp");
    assert!(!r.contains(&s("G/.meta-mystia-tmp")));
    assert_eq!(r.dirs(), &vec![s("H")]);
    assert_eq!(DirGuard::from_existing(s("H")).path, "H");
}

#[test]
fn version_cache_keeps_first_value() {
    let mut c = VersionCache::new();
    assert!(c.get().is_none());
    let a = VersionInfo { bep_in_ex: s("1#a"), manager: s("1"), dlls: vec![s("1")], zips: vec![s("1")] };
    let mut b = a.clone();
    b.manager = s("2");
    c.store(a);
    c.store(b);
    assert_eq!(c.get().unwrap().manager, "1");
    assert_eq!(SNIPPET_CHARS, 200);
}

#[test]
fn glob_filter_matches_names() {
    let names = vec![s("MetaMystia-v1.dll"), s("MetaMystia-v1.dll.old"), s("MetaMystia-v1.dll.old.2"), s("Other.dll")];
    assert_eq!(glob_filter("MetaMystia-*.dll", &names), vec![s("MetaMystia-v1.dll")]);
    assert_eq!(glob_filter("MetaMystia-*.dll.old*", &names), vec![s("MetaMystia-v1.dll.old"), s("MetaMystia-v1.dll.old.2")]);
}

#[test]
fn requested_versions_must_be_listed() {
    let listed = vec![s("0.9.0"), s("0.8.0")];
    assert_eq!(choose_version(&None, &listed), Ok(s("0.9.0")));
    assert_eq!(choose_version(&Some(s("0.8.0")), &listed), Ok(s("0.8.0")));
    assert!(matches!(
        choose_version(&Some(s("0.1.0")), &listed),
        Err(ManagerError::Other(_))
    ));
    assert_eq!(choose_version(&None, &vec![]), Err(ManagerError::InvalidVersionInfo));
}
