use base16_shell::bootstrap::{ensure_config_files_exist, SetupAction};
use base16_shell::errors::{script_exit_result, SwitchError};
use base16_shell::init::{init_command, InitAction};
use base16_shell::source::{resolve, DirFacts, EmbeddedBundle, ThemeSource};

fn facts(path: &str, exists: bool, scripts: bool, hooks: bool) -> DirFacts {
    DirFacts {
        path: String::from(path),
        exists,
        has_scripts: scripts,
        has_hooks: hooks,
    }
}

fn empty_bundle() -> EmbeddedBundle {
    EmbeddedBundle { schemes: Vec::new(), hooks: Vec::new() }
}

#[test]
fn explicit_source_wins_when_well_formed() {
    let r = resolve(
        Some(facts("/given", true, true, true)),
        facts("/cache", true, true, true),
        Some(empty_bundle()),
    );
    match r {
        Ok(ThemeSource::Explicit { root }) => assert_eq!(root, "/given"),
        _ => panic!("a well-formed explicit directory must be chosen"),
    }
}

#[test]
fn malformed_explicit_source_is_fatal_despite_fallbacks() {
    let r = resolve(
        Some(facts("/given", true, true, false)),
        facts("/cache", true, true, true),
        Some(empty_bundle()),
    );
    match r {
        Err(SwitchError::SourceInvalid { path, missing }) => {
            assert_eq!(path, "/given");
            assert_eq!(missing, "hooks");
        }
        _ => panic!("an explicit choice must never be silently overridden"),
    }
}

#[test]
fn explicit_source_missing_scripts_names_scripts() {
    let r = resolve(Some(facts("/given", false, false, false)), facts("/cache", true, true, true), None);
    match r {
        Err(SwitchError::SourceInvalid { path, missing }) => {
            assert_eq!(path, "/given");
            assert_eq!(missing, "scripts");
        }
        _ => panic!("an absent explicit directory must be an invalid source"),
    }
}

#[test]
fn cache_is_used_when_no_explicit_path_is_given() {
    let r = resolve(None, facts("/cache", true, true, true), Some(empty_bundle()));
    match r {
        Ok(ThemeSource::Cached { root }) => assert_eq!(root, "/cache"),
        _ => panic!("a well-formed cache must be chosen"),
    }
}

#[test]
fn embedded_bundle_is_the_last_resort() {
    let r = resolve(None, facts("/cache", false, false, false), Some(empty_bundle()));
    assert!(matches!(r, Ok(ThemeSource::Embedded { .. })));
}

#[test]
fn resolution_fails_only_with_nothing_left() {
    let r = resolve(None, facts("/cache", true, false, true), None);
    assert!(matches!(r, Err(SwitchError::SourceUnavailable)));
}

#[test]
fn bootstrap_creates_only_what_is_absent() {
    let actions = ensure_config_files_exist(
        String::from("/cfg"),
        false,
        String::from("/data"),
        true,
        String::from("/cfg/theme_name"),
        false,
    );
    assert_eq!(actions.len(), 2);
    match &actions[0] {
        SetupAction::CreateDir { path } => assert_eq!(path, "/cfg"),
        _ => panic!("the configuration directory comes first"),
    }
    match &actions[1] {
        SetupAction::CreateFile { path } => assert_eq!(path, "/cfg/theme_name"),
        _ => panic!("the theme-name file comes last"),
    }
}

#[test]
fn bootstrap_with_everything_present_does_nothing() {
    let actions = ensure_config_files_exist(
        String::from("/cfg"),
        true,
        String::from("/data"),
        true,
        String::from("/cfg/theme_name"),
        true,
    );
    assert!(actions.is_empty());
}

#[test]
fn bootstrap_creates_everything_in_order_on_first_run() {
    let actions = ensure_config_files_exist(
        String::from("/cfg"),
        false,
        String::from("/data"),
        false,
        String::from("/cfg/theme_name"),
        false,
    );
    assert_eq!(actions.len(), 3);
    assert!(matches!(&actions[0], SetupAction::CreateDir { path } if path == "/cfg"));
    assert!(matches!(&actions[1], SetupAction::CreateDir { path } if path == "/data"));
    assert!(matches!(&actions[2], SetupAction::CreateFile { path } if path == "/cfg/theme_name"));
}

#[test]
fn init_runs_the_stored_theme_when_no_default_is_given() {
    let r = init_command("", "mocha", "/cfg/base16_shell_theme", true);
    assert!(matches!(r, InitAction::RunScript { path } if path == "/cfg/base16_shell_theme"));
}

#[test]
fn init_reports_missing_config_without_an_artifact() {
    let r = init_command("mocha", "", "/cfg/base16_shell_theme", false);
    assert!(matches!(r, InitAction::ReportMissing));
}

#[test]
fn init_reports_missing_config_without_any_name() {
    let r = init_command("", "", "/cfg/base16_shell_theme", true);
    assert!(matches!(r, InitAction::ReportMissing));
}

#[test]
fn zero_exit_is_the_only_success() {
    assert!(script_exit_result("/cfg/base16_shell_theme", Some(0)).is_ok());
    match script_exit_result("/cfg/base16_shell_theme", Some(2)) {
        Err(SwitchError::ScriptExecutionFailed { path, code }) => {
            assert_eq!(path, "/cfg/base16_shell_theme");
            assert_eq!(code, Some(2));
        }
        _ => panic!("a non-zero exit must fail"),
    }
    match script_exit_result("/cfg/base16_shell_theme", None) {
        Err(SwitchError::ScriptExecutionFailed { code, .. }) => assert_eq!(code, None),
        _ => panic!("a script that cannot start must fail"),
    }
}
