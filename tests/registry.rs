use conditional_launcher::config::{path_from_text, path_to_text, AppConfig, Conditions};
use conditional_launcher::launcher::{
    conditions_change, ConditionChange, ConditionalLauncherApp, SelfRegistration,
};
use conditional_launcher::order::{sort_by_name, text_less};
use conditional_launcher::registry::{contains_name, load_all_apps, merge};

fn entry(name: &str, internet: bool, managed: bool) -> AppConfig {
    AppConfig {
        name: name.to_string(),
        command: format!("cmd-{}", name),
        conditions: Conditions {
            internet,
            partition_mounted: None,
        },
        original_path: Some(format!("/home/u/.config/autostart/{}.desktop", name)),
        icon: None,
        working_dir: None,
        launched: false,
        is_managed: managed,
    }
}

fn names(apps: &[AppConfig]) -> Vec<String> {
    apps.iter().map(|a| a.name.clone()).collect()
}

fn summary(apps: &[AppConfig]) -> Vec<(String, String, bool, bool, Option<String>)> {
    apps.iter()
        .map(|a| {
            (
                a.name.clone(),
                a.command.clone(),
                a.conditions.internet,
                a.is_managed,
                a.conditions.partition_mounted.clone(),
            )
        })
        .collect()
}

#[test]
fn text_order_is_by_code_point() {
    let s = |x: &str| x.to_string();
    assert!(text_less(&s("a"), &s("b")));
    assert!(!text_less(&s("b"), &s("a")));
    assert!(text_less(&s("ab"), &s("abc")));
    assert!(!text_less(&s("abc"), &s("ab")));
    assert!(text_less(&s("B"), &s("a")));
    assert!(!text_less(&s("same"), &s("same")));
    assert!(text_less(&s(""), &s("x")));
    assert!(!text_less(&s(""), &s("")));
}

#[test]
fn sort_ignores_case() {
    let sorted = sort_by_name(vec![entry("gamma", false, false), entry("a", false, false), entry("B", false, false)]);
    assert_eq!(names(&sorted), vec!["a", "B", "gamma"]);
}

#[test]
fn sort_keeps_order_of_equal_keys() {
    let sorted = sort_by_name(vec![entry("app", false, false), entry("App", true, false), entry("APP", false, true)]);
    assert_eq!(names(&sorted), vec!["app", "App", "APP"]);
}

#[test]
fn merge_unions_by_name_and_sorts() {
    let managed = vec![entry("Zed", true, true), entry("editor", true, true)];
    let found = vec![entry("browser", false, false), entry("Editor", false, false), entry("zed", false, false)];
    let merged = merge(managed, found);
    assert_eq!(names(&merged), vec!["browser", "editor", "Editor", "Zed", "zed"]);
}

#[test]
fn merge_prefers_managed_record() {
    let mut managed_one = entry("mail", true, true);
    managed_one.conditions.partition_mounted = Some("/mnt/mail".to_string());
    let found = vec![entry("mail", false, false), entry("chat", false, false)];
    let merged = merge(vec![managed_one], found);
    assert_eq!(names(&merged), vec!["chat", "mail"]);
    assert!(merged[1].is_managed);
    assert!(merged[1].conditions.internet);
    assert_eq!(merged[1].conditions.partition_mounted, Some("/mnt/mail".to_string()));
    assert!(!merged[0].is_managed);
}

#[test]
fn merge_marks_discovered_records_unmanaged() {
    let merged = merge(Vec::new(), vec![entry("odd", false, true)]);
    assert_eq!(merged.len(), 1);
    assert!(!merged[0].is_managed);
}

#[test]
fn merge_keeps_first_of_repeated_discovered_names() {
    let mut second = entry("dup", false, false);
    second.command = "other".to_string();
    let merged = merge(Vec::new(), vec![entry("dup", false, false), second]);
    assert_eq!(merged.len(), 1);
    assert_eq!(merged[0].command, "cmd-dup");
}

#[test]
fn merge_twice_changes_nothing() {
    let managed = vec![entry("Mail", true, true), entry("notes", false, true)];
    let found = vec![entry("mail", false, false), entry("Backup", false, false), entry("notes", false, false)];
    let once = merge(managed.clone(), found.clone());
    let twice = merge(once.clone(), found);
    assert_eq!(summary(&once), summary(&twice));
}

#[test]
fn load_all_apps_marks_config_records_managed() {
    let apps = load_all_apps(vec![entry("b", true, false)], vec![entry("a", false, false), entry("b", false, false)]);
    assert_eq!(names(&apps), vec!["a", "b"]);
    assert!(!apps[0].is_managed);
    assert!(apps[1].is_managed);
    assert!(apps[1].conditions.internet);
}

#[test]
fn contains_name_is_exact() {
    let apps = vec![entry("Mail", false, false)];
    assert!(contains_name(&apps, &"Mail".to_string()));
    assert!(!contains_name(&apps, &"mail".to_string()));
}

#[test]
fn refresh_drops_vanished_unmanaged_and_adds_new() {
    let mut state = ConditionalLauncherApp::new(
        vec![entry("gone", false, false), entry("kept", true, true), entry("stay", false, false)],
        Vec::new(),
    );
    state.refresh_autostart_list(vec![entry("stay", false, false), entry("New", false, false)]);
    assert_eq!(names(&state.apps), vec!["kept", "New", "stay"]);
    assert!(state.apps[0].is_managed);
    assert!(!state.apps[1].is_managed);
}

#[test]
fn save_plan_holds_managed_records_and_registration() {
    let state = ConditionalLauncherApp::new(
        vec![entry("a", true, true), entry("b", false, false), entry("c", true, true)],
        Vec::new(),
    );
    let plan = state.save_config();
    assert_eq!(names(&plan.apps), vec!["a", "c"]);
    assert!(matches!(plan.registration, SelfRegistration::Add(2)));
    let empty = ConditionalLauncherApp::new(vec![entry("b", false, false)], Vec::new());
    let plan = empty.save_config();
    assert!(plan.apps.is_empty());
    assert!(matches!(plan.registration, SelfRegistration::Remove));
}

#[test]
fn promotion_needs_confirmation() {
    let mut state = ConditionalLauncherApp::new(vec![entry("a", true, false)], Vec::new());
    assert!(!state.manage(0, false));
    assert!(!state.apps[0].is_managed);
    assert!(state.manage(0, true));
    assert!(state.apps[0].is_managed);
}

#[test]
fn demotion_needs_confirmation() {
    let mut state = ConditionalLauncherApp::new(vec![entry("a", false, true)], Vec::new());
    assert!(!state.unmanage(0, false));
    assert!(state.apps[0].is_managed);
    assert!(state.unmanage(0, true));
    assert!(!state.apps[0].is_managed);
}

#[test]
fn promote_then_demote_restores_record() {
    let mut state = ConditionalLauncherApp::new(vec![entry("a", true, false), entry("b", false, false)], Vec::new());
    let before = summary(&state.apps);
    assert!(state.manage(1, true));
    assert!(state.unmanage(1, true));
    assert_eq!(summary(&state.apps), before);
    assert_eq!(
        state.apps[1].original_path,
        Some("/home/u/.config/autostart/b.desktop".to_string())
    );
}

#[test]
fn condition_edits_decide_the_follow_up() {
    let none = Conditions { internet: false, partition_mounted: None };
    let net = Conditions { internet: true, partition_mounted: None };
    let a = entry("a", true, false);
    assert!(matches!(conditions_change(&a, &net), ConditionChange::Unchanged));
    assert!(matches!(conditions_change(&a, &none), ConditionChange::Manage));
    let m = entry("m", true, true);
    assert!(matches!(conditions_change(&m, &none), ConditionChange::Save));
    let cleared = entry("c", false, true);
    assert!(matches!(conditions_change(&cleared, &net), ConditionChange::Unmanage));
    let mut mounted = entry("d", false, false);
    mounted.conditions.partition_mounted = Some("/data".to_string());
    assert!(matches!(conditions_change(&mounted, &none), ConditionChange::Manage));
    let plain = entry("p", false, false);
    assert!(matches!(conditions_change(&plain, &net), ConditionChange::Unchanged));
}

#[test]
fn conditions_compare_by_value() {
    let a = Conditions { internet: true, partition_mounted: Some("/x".to_string()) };
    let b = Conditions { internet: true, partition_mounted: Some("/x".to_string()) };
    let c = Conditions { internet: true, partition_mounted: Some("/y".to_string()) };
    let d = Conditions { internet: true, partition_mounted: None };
    assert!(a == b);
    assert!(a != c);
    assert!(a != d);
    assert!(Conditions::default() == Conditions { internet: false, partition_mounted: None });
}

#[test]
fn stored_path_text_round_trips() {
    assert_eq!(path_to_text(&None), "");
    assert_eq!(path_to_text(&Some("/opt".to_string())), "/opt");
    assert_eq!(path_from_text(String::new()), None);
    assert_eq!(path_from_text("/opt".to_string()), Some("/opt".to_string()));
}

#[test]
fn discovered_record_starts_unmanaged() {
    let a = AppConfig::discovered(
        "Tool".to_string(),
        "tool --x".to_string(),
        Some("tool-icon".to_string()),
        None,
        "/auto/tool.desktop".to_string(),
    );
    assert_eq!(a.original_path, Some("/auto/tool.desktop".to_string()));
    assert!(!a.is_managed && !a.launched && !a.conditions.internet);
    assert_eq!(a.conditions.partition_mounted, None);
}
