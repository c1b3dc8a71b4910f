use conditional_launcher::conditions::{check_app_conditions, is_partition_mounted, Snapshot};
use conditional_launcher::config::{AppConfig, Conditions};
use conditional_launcher::launch::{perform_launch_checks, HiddenRun};

fn app(name: &str, internet: bool, mount: Option<&str>, managed: bool) -> AppConfig {
    AppConfig {
        name: name.to_string(),
        command: format!("run-{}", name),
        conditions: Conditions {
            internet,
            partition_mounted: mount.map(|m| m.to_string()),
        },
        original_path: None,
        icon: None,
        working_dir: None,
        launched: false,
        is_managed: managed,
    }
}

fn snapshot(reachable: bool, mounts: &[&str]) -> Snapshot {
    Snapshot {
        reachable,
        mount_points: mounts.iter().map(|m| m.to_string()).collect(),
    }
}

#[test]
fn internet_not_required_passes_offline_and_online() {
    let a = app("a", false, None, true);
    assert!(check_app_conditions(&a, &snapshot(false, &[])).internet_ok);
    assert!(check_app_conditions(&a, &snapshot(true, &[])).internet_ok);
}

#[test]
fn internet_required_follows_reachability() {
    let a = app("a", true, None, true);
    assert!(!check_app_conditions(&a, &snapshot(false, &[])).internet_ok);
    assert!(check_app_conditions(&a, &snapshot(true, &[])).internet_ok);
}

#[test]
fn partition_needs_exact_mount_point() {
    let a = app("a", false, Some("/mnt/data"), true);
    assert!(check_app_conditions(&a, &snapshot(false, &["/", "/mnt/data"])).partition_ok);
    assert!(!check_app_conditions(&a, &snapshot(false, &["/mnt"])).partition_ok);
    assert!(!check_app_conditions(&a, &snapshot(false, &["/mnt/data/sub"])).partition_ok);
    assert!(!check_app_conditions(&a, &snapshot(false, &["/mnt/data/"])).partition_ok);
    assert!(!check_app_conditions(&a, &snapshot(false, &[])).partition_ok);
}

#[test]
fn no_partition_condition_always_passes() {
    let a = app("a", false, None, true);
    let status = check_app_conditions(&a, &snapshot(false, &[]));
    assert!(status.partition_ok);
    assert!(status.is_eligible());
}

#[test]
fn partition_lookup_is_literal() {
    let mounts = vec!["/media/usb".to_string(), "/home".to_string()];
    assert!(is_partition_mounted(&"/home".to_string(), &mounts));
    assert!(!is_partition_mounted(&"/HOME".to_string(), &mounts));
    assert!(!is_partition_mounted(&"/media".to_string(), &mounts));
}

#[test]
fn offline_app_waits_then_launches_once() {
    let mut apps = vec![app("X", true, None, true)];
    let launched = perform_launch_checks(&mut apps, &snapshot(false, &[]));
    assert!(launched.is_empty());
    assert!(!apps[0].launched);
    let launched = perform_launch_checks(&mut apps, &snapshot(true, &[]));
    assert_eq!(launched, vec![0]);
    assert!(apps[0].launched);
    let launched = perform_launch_checks(&mut apps, &snapshot(true, &[]));
    assert!(launched.is_empty());
    assert!(apps[0].launched);
}

#[test]
fn mounted_partition_app_launches_on_first_tick() {
    let mut apps = vec![app("Y", false, Some("/mnt/data"), true)];
    let launched = perform_launch_checks(&mut apps, &snapshot(false, &["/mnt/data"]));
    assert_eq!(launched, vec![0]);
    assert!(apps[0].launched);
}

#[test]
fn second_tick_on_same_snapshot_launches_nothing() {
    let mut apps = vec![
        app("a", false, None, true),
        app("b", true, None, true),
        app("c", false, Some("/x"), true),
    ];
    let s = snapshot(true, &["/y"]);
    let first = perform_launch_checks(&mut apps, &s);
    assert_eq!(first, vec![0, 1]);
    let second = perform_launch_checks(&mut apps, &s);
    assert!(second.is_empty());
    assert!(apps[0].launched && apps[1].launched && !apps[2].launched);
}

#[test]
fn launched_app_stays_launched_when_conditions_fail() {
    let mut apps = vec![app("a", true, None, true)];
    perform_launch_checks(&mut apps, &snapshot(true, &[]));
    let again = perform_launch_checks(&mut apps, &snapshot(false, &[]));
    assert!(again.is_empty());
    assert!(apps[0].launched);
}

#[test]
fn unmanaged_app_is_never_launched_by_a_tick() {
    let mut apps = vec![app("u", false, None, false), app("m", false, None, true)];
    let launched = perform_launch_checks(&mut apps, &snapshot(true, &[]));
    assert_eq!(launched, vec![1]);
    assert!(!apps[0].launched);
}

#[test]
fn background_run_reports_in_launch_order() {
    let mut run = HiddenRun::new(vec![
        app("X", true, None, false),
        app("Y", false, Some("/mnt/data"), false),
    ]);
    assert!(run.apps.iter().all(|a| a.is_managed));
    assert!(run.tick(&snapshot(false, &[])).is_empty());
    assert!(!run.is_finished());
    assert_eq!(run.tick(&snapshot(true, &[])), vec![0]);
    assert!(!run.is_finished());
    assert_eq!(run.tick(&snapshot(true, &["/mnt/data"])), vec![1]);
    assert!(run.is_finished());
    assert_eq!(run.launched_names, vec!["X".to_string(), "Y".to_string()]);
}

#[test]
fn background_run_order_follows_launches_not_input() {
    let mut run = HiddenRun::new(vec![
        app("Y", false, Some("/mnt/data"), true),
        app("X", true, None, true),
    ]);
    assert!(run.tick(&snapshot(false, &[])).is_empty());
    assert_eq!(run.tick(&snapshot(true, &[])), vec![1]);
    assert!(!run.is_finished());
    assert_eq!(run.tick(&snapshot(true, &["/mnt/data"])), vec![0]);
    assert!(run.is_finished());
    assert_eq!(run.launched_names, vec!["X".to_string(), "Y".to_string()]);
}

#[test]
fn background_run_without_apps_is_finished_at_once() {
    let run = HiddenRun::new(Vec::new());
    assert!(run.is_finished());
    assert!(run.launched_names.is_empty());
}
