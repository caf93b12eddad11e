use base16_shell::errors::SwitchError;
use base16_shell::source::{EmbeddedBundle, EmbeddedFile, ThemeSource};
use base16_shell::switcher::{set_command, SwitchAction, SwitchEvent, SwitchOutcome};
use base16_shell::theme::ThemeName;

fn fs_request(theme: &str) -> (base16_shell::switcher::SetPipeline, SwitchAction) {
    set_command(
        ThemeName::new(String::from(theme)).expect("valid theme name"),
        String::from("/cfg"),
        ThemeSource::Explicit { root: String::from("/repo") },
        String::from("/cfg/base16_shell_theme"),
        String::from("/cfg/theme_name"),
    )
}

#[test]
fn set_ocean_from_empty_config_end_to_end() {
    // Simulated state store: the two persisted files.
    let mut theme_name_file = String::new();
    let mut colorscheme_file = String::new();
    let ocean_script = "export BASE16_THEME=ocean";

    let (m, a) = fs_request("ocean");
    match &a {
        SwitchAction::CheckScript { path } => {
            assert_eq!(path, "/repo/scripts/base16-ocean.sh")
        }
        _ => panic!("validation comes first"),
    }

    let (m, a) = m.step(SwitchEvent::ScriptFound { found: true });
    match &a {
        SwitchAction::ReadCurrent { path } => assert_eq!(path, "/cfg/theme_name"),
        _ => panic!("the current theme is read next"),
    }

    let (m, a) = m.step(SwitchEvent::CurrentName { name: Some(theme_name_file.clone()) });
    match &a {
        SwitchAction::ReadScript { path } => {
            assert_eq!(path, "/repo/scripts/base16-ocean.sh")
        }
        _ => panic!("the script is read for a real switch"),
    }

    let (m, a) = m.step(SwitchEvent::ScriptContents { contents: Some(String::from(ocean_script)) });
    match &a {
        SwitchAction::Materialize { path, contents } => {
            assert_eq!(path, "/cfg/base16_shell_theme");
            assert_eq!(contents, ocean_script);
            colorscheme_file = contents.clone();
        }
        _ => panic!("the artifact is materialized next"),
    }

    let (m, a) = m.step(SwitchEvent::Materialized { ok: true });
    match &a {
        SwitchAction::Persist { path, name } => {
            assert_eq!(path, "/cfg/theme_name");
            assert_eq!(name, "ocean");
            theme_name_file = name.clone();
        }
        _ => panic!("the name is persisted after the artifact"),
    }

    let (m, a) = m.step(SwitchEvent::Persisted { ok: true });
    match &a {
        SwitchAction::RunScript { path } => assert_eq!(path, "/cfg/base16_shell_theme"),
        _ => panic!("the fresh artifact is sourced"),
    }

    let (m, a) = m.step(SwitchEvent::ScriptExit { code: Some(0) });
    match &a {
        SwitchAction::ListHooks { path } => assert_eq!(path, "/repo/hooks"),
        _ => panic!("hooks run after a successful switch"),
    }

    let (_, a) = m.step(SwitchEvent::HookFiles { files: Some(Vec::new()) });
    match a {
        SwitchAction::Finish { outcome } => match outcome {
            Ok(SwitchOutcome::ThemeSet { name }) => assert_eq!(name, "ocean"),
            _ => panic!("the switch must succeed"),
        },
        _ => panic!("an empty hook plan finishes at once"),
    }

    // The persisted pair now carries the new theme.
    assert_eq!(theme_name_file, "ocean");
    assert_eq!(colorscheme_file, ocean_script);
}

#[test]
fn setting_the_current_theme_again_is_a_noop() {
    let (m, _) = fs_request("ocean");
    let (m, _) = m.step(SwitchEvent::ScriptFound { found: true });
    // The stored name equals the request: no materialize, no persist, no
    // sourcing — straight to the hooks.
    let (m, a) = m.step(SwitchEvent::CurrentName { name: Some(String::from("ocean")) });
    match &a {
        SwitchAction::ListHooks { path } => assert_eq!(path, "/repo/hooks"),
        _ => panic!("an already-set theme skips the switch"),
    }
    let (_, a) = m.step(SwitchEvent::HookFiles { files: Some(Vec::new()) });
    match a {
        SwitchAction::Finish { outcome } => match outcome {
            Ok(SwitchOutcome::AlreadySet { name }) => assert_eq!(name, "ocean"),
            _ => panic!("re-applying the current theme still succeeds"),
        },
        _ => panic!("nothing is left to do"),
    }
}

#[test]
fn unknown_theme_fails_without_touching_state() {
    let (m, _) = fs_request("nope");
    let (_, a) = m.step(SwitchEvent::ScriptFound { found: false });
    match a {
        SwitchAction::Finish { outcome } => match outcome {
            Err(SwitchError::ThemeNotFound { script_path }) => {
                assert_eq!(script_path, "/repo/scripts/base16-nope.sh")
            }
            _ => panic!("an unknown theme is reported as not found"),
        },
        _ => panic!("an unknown theme ends the run at once"),
    }
    // No Materialize or Persist action was ever handed out, so both state
    // files are byte-identical to their pre-call contents.
}

#[test]
fn hooks_run_in_name_order_one_at_a_time() {
    let (m, _) = fs_request("ocean");
    let (m, _) = m.step(SwitchEvent::ScriptFound { found: true });
    let (m, _) = m.step(SwitchEvent::CurrentName { name: Some(String::new()) });
    let (m, _) = m.step(SwitchEvent::ScriptContents { contents: Some(String::from("s")) });
    let (m, _) = m.step(SwitchEvent::Materialized { ok: true });
    let (m, _) = m.step(SwitchEvent::Persisted { ok: true });
    let (m, a) = m.step(SwitchEvent::ScriptExit { code: Some(0) });
    assert!(matches!(a, SwitchAction::ListHooks { .. }));

    // The directory lists b.sh before a.sh; the plan still runs a.sh first.
    let files = vec![String::from("b.sh"), String::from("a.sh"), String::from("notes.txt")];
    let mut marker_written = false;
    let (m, a) = m.step(SwitchEvent::HookFiles { files: Some(files) });
    match &a {
        SwitchAction::RunHook { path, env } => {
            assert_eq!(path, "/repo/hooks/a.sh");
            assert_eq!(env.theme_name, "ocean");
            assert_eq!(env.config_path, "/cfg");
            assert_eq!(env.theme_name_path, "/cfg/theme_name");
            // a.sh writes the marker b.sh asserts on.
            marker_written = true;
        }
        _ => panic!("the first hook in name order runs first"),
    }

    let (m, a) = m.step(SwitchEvent::HookExit { code: Some(0) });
    match &a {
        SwitchAction::RunHook { path, .. } => {
            assert_eq!(path, "/repo/hooks/b.sh");
            // b.sh only succeeds if a.sh already ran.
            assert!(marker_written, "b.sh must see a.sh's marker");
        }
        _ => panic!("the second hook runs only after the first exits"),
    }

    let (_, a) = m.step(SwitchEvent::HookExit { code: Some(0) });
    match a {
        SwitchAction::Finish { outcome } => assert!(outcome.is_ok()),
        _ => panic!("the run finishes after the last hook"),
    }
}

#[test]
fn first_failing_hook_aborts_the_rest() {
    let (m, _) = fs_request("ocean");
    let (m, _) = m.step(SwitchEvent::ScriptFound { found: true });
    let (m, _) = m.step(SwitchEvent::CurrentName { name: Some(String::new()) });
    let (m, _) = m.step(SwitchEvent::ScriptContents { contents: Some(String::from("s")) });
    let (m, _) = m.step(SwitchEvent::Materialized { ok: true });
    let (m, _) = m.step(SwitchEvent::Persisted { ok: true });
    let (m, _) = m.step(SwitchEvent::ScriptExit { code: Some(0) });
    let files = vec![String::from("a.sh"), String::from("b.sh")];
    let (m, _) = m.step(SwitchEvent::HookFiles { files: Some(files) });
    let (_, a) = m.step(SwitchEvent::HookExit { code: Some(3) });
    match a {
        SwitchAction::Finish { outcome } => match outcome {
            Err(SwitchError::HookFailed { path, code }) => {
                assert_eq!(path, "/repo/hooks/a.sh");
                assert_eq!(code, Some(3));
            }
            _ => panic!("the failing hook is identified"),
        },
        _ => panic!("the first non-zero hook aborts the remaining ones"),
    }
}

#[test]
fn missing_hooks_directory_is_an_error() {
    let (m, _) = fs_request("ocean");
    let (m, _) = m.step(SwitchEvent::ScriptFound { found: true });
    let (m, _) = m.step(SwitchEvent::CurrentName { name: Some(String::new()) });
    let (m, _) = m.step(SwitchEvent::ScriptContents { contents: Some(String::from("s")) });
    let (m, _) = m.step(SwitchEvent::Materialized { ok: true });
    let (m, _) = m.step(SwitchEvent::Persisted { ok: true });
    let (m, _) = m.step(SwitchEvent::ScriptExit { code: Some(0) });
    let (_, a) = m.step(SwitchEvent::HookFiles { files: None });
    match a {
        SwitchAction::Finish { outcome } => match outcome {
            Err(SwitchError::SourceInvalid { path, missing }) => {
                assert_eq!(path, "/repo/hooks");
                assert_eq!(missing, "hooks");
            }
            _ => panic!("a missing hooks directory is an invalid source"),
        },
        _ => panic!("a missing hooks directory ends the run"),
    }
}

#[test]
fn failing_theme_script_fails_the_switch() {
    let (m, _) = fs_request("ocean");
    let (m, _) = m.step(SwitchEvent::ScriptFound { found: true });
    let (m, _) = m.step(SwitchEvent::CurrentName { name: Some(String::new()) });
    let (m, _) = m.step(SwitchEvent::ScriptContents { contents: Some(String::from("s")) });
    let (m, _) = m.step(SwitchEvent::Materialized { ok: true });
    let (m, _) = m.step(SwitchEvent::Persisted { ok: true });
    let (_, a) = m.step(SwitchEvent::ScriptExit { code: Some(1) });
    match a {
        SwitchAction::Finish { outcome } => match outcome {
            Err(SwitchError::ScriptExecutionFailed { path, code }) => {
                assert_eq!(path, "/cfg/base16_shell_theme");
                assert_eq!(code, Some(1));
            }
            _ => panic!("a non-zero theme script exit fails the switch"),
        },
        _ => panic!("a failed sourcing step ends the run"),
    }
}

#[test]
fn unreadable_name_file_is_an_io_failure() {
    let (m, _) = fs_request("ocean");
    let (m, _) = m.step(SwitchEvent::ScriptFound { found: true });
    let (_, a) = m.step(SwitchEvent::CurrentName { name: None });
    match a {
        SwitchAction::Finish { outcome } => match outcome {
            Err(SwitchError::IoFailure { op, path }) => {
                assert_eq!(op, "read");
                assert_eq!(path, "/cfg/theme_name");
            }
            _ => panic!("an unreadable name file is an io failure"),
        },
        _ => panic!("an unreadable name file ends the run"),
    }
}

struct SimWorld {
    theme_name_file: String,
    colorscheme_file: String,
    scripts: Vec<(String, String)>,
    hook_files: Option<Vec<String>>,
    materialize_count: usize,
    persist_count: usize,
    run_script_count: usize,
}

fn drive(world: &mut SimWorld, theme: &str) -> Result<SwitchOutcome, SwitchError> {
    let (mut m, mut a) = fs_request(theme);
    loop {
        match a {
            SwitchAction::Finish { outcome } => return outcome,
            other => {
                let ev = match &other {
                    SwitchAction::CheckScript { path } => SwitchEvent::ScriptFound {
                        found: world
                            .scripts
                            .iter()
                            .any(|(n, _)| format!("/repo/scripts/{}", n) == *path),
                    },
                    SwitchAction::ReadCurrent { .. } => SwitchEvent::CurrentName {
                        name: Some(world.theme_name_file.clone()),
                    },
                    SwitchAction::ReadScript { path } => SwitchEvent::ScriptContents {
                        contents: world
                            .scripts
                            .iter()
                            .find(|(n, _)| format!("/repo/scripts/{}", n) == *path)
                            .map(|(_, c)| c.clone()),
                    },
                    SwitchAction::Materialize { contents, .. } => {
                        world.colorscheme_file = contents.clone();
                        world.materialize_count += 1;
                        SwitchEvent::Materialized { ok: true }
                    }
                    SwitchAction::Persist { name, .. } => {
                        world.theme_name_file = name.clone();
                        world.persist_count += 1;
                        SwitchEvent::Persisted { ok: true }
                    }
                    SwitchAction::RunScript { .. } => {
                        world.run_script_count += 1;
                        SwitchEvent::ScriptExit { code: Some(0) }
                    }
                    SwitchAction::ListHooks { .. } => SwitchEvent::HookFiles {
                        files: world.hook_files.clone(),
                    },
                    SwitchAction::RunHook { .. } => SwitchEvent::HookExit { code: Some(0) },
                    SwitchAction::RunEmbeddedHook { .. } => {
                        SwitchEvent::HookExit { code: Some(0) }
                    }
                    SwitchAction::Finish { .. } => unreachable!("handled above"),
                };
                let stepped = m.step(ev);
                m = stepped.0;
                a = stepped.1;
            }
        }
    }
}

#[test]
fn second_set_performs_the_real_switch_once() {
    let mut world = SimWorld {
        theme_name_file: String::new(),
        colorscheme_file: String::new(),
        scripts: vec![(String::from("base16-ocean.sh"), String::from("OCEAN"))],
        hook_files: Some(vec![String::from("a.sh")]),
        materialize_count: 0,
        persist_count: 0,
        run_script_count: 0,
    };

    let first = drive(&mut world, "ocean");
    assert!(matches!(first, Ok(SwitchOutcome::ThemeSet { .. })));
    assert_eq!(world.theme_name_file, "ocean");
    assert_eq!(world.colorscheme_file, "OCEAN");
    assert_eq!(world.materialize_count, 1);
    assert_eq!(world.persist_count, 1);
    assert_eq!(world.run_script_count, 1);

    // The second identical call still succeeds, but performs no switch work.
    let second = drive(&mut world, "ocean");
    assert!(matches!(second, Ok(SwitchOutcome::AlreadySet { .. })));
    assert_eq!(world.materialize_count, 1);
    assert_eq!(world.persist_count, 1);
    assert_eq!(world.run_script_count, 1);
}

#[test]
fn unknown_theme_leaves_simulated_files_byte_identical() {
    let mut world = SimWorld {
        theme_name_file: String::from("ocean"),
        colorscheme_file: String::from("OCEAN"),
        scripts: vec![(String::from("base16-ocean.sh"), String::from("OCEAN"))],
        hook_files: Some(Vec::new()),
        materialize_count: 0,
        persist_count: 0,
        run_script_count: 0,
    };
    let r = drive(&mut world, "zenburn");
    assert!(matches!(r, Err(SwitchError::ThemeNotFound { .. })));
    assert_eq!(world.theme_name_file, "ocean");
    assert_eq!(world.colorscheme_file, "OCEAN");
    assert_eq!(world.materialize_count, 0);
    assert_eq!(world.persist_count, 0);
}

fn ocean_bundle() -> EmbeddedBundle {
    EmbeddedBundle {
        schemes: vec![EmbeddedFile {
            name: String::from("base16-ocean.sh"),
            contents: String::from("export BASE16_THEME=ocean"),
        }],
        hooks: vec![EmbeddedFile {
            name: String::from("x.sh"),
            contents: String::from("exit 0"),
        }],
    }
}

#[test]
fn embedded_bundle_switch_materializes_from_memory() {
    let (m, a) = set_command(
        ThemeName::new(String::from("ocean")).unwrap(),
        String::from("/cfg"),
        ThemeSource::Embedded { bundle: ocean_bundle() },
        String::from("/cfg/base16_shell_theme"),
        String::from("/cfg/theme_name"),
    );
    // The in-memory index is its own catalog: no script file to check.
    assert!(matches!(&a, SwitchAction::ReadCurrent { .. }));

    let (m, a) = m.step(SwitchEvent::CurrentName { name: Some(String::new()) });
    match &a {
        SwitchAction::Materialize { path, contents } => {
            assert_eq!(path, "/cfg/base16_shell_theme");
            assert_eq!(contents, "export BASE16_THEME=ocean");
        }
        _ => panic!("embedded contents come straight from the bundle"),
    }

    let (m, a) = m.step(SwitchEvent::Materialized { ok: true });
    assert!(matches!(&a, SwitchAction::Persist { .. }));
    let (m, a) = m.step(SwitchEvent::Persisted { ok: true });
    assert!(matches!(&a, SwitchAction::RunScript { .. }));

    // The bundle's hook is materialized to a temporary file by the driver.
    let (m, a) = m.step(SwitchEvent::ScriptExit { code: Some(0) });
    match &a {
        SwitchAction::RunEmbeddedHook { name, contents, env } => {
            assert_eq!(name, "x.sh");
            assert_eq!(contents, "exit 0");
            assert_eq!(env.theme_name, "ocean");
        }
        _ => panic!("embedded hooks are handed out with their contents"),
    }

    let (_, a) = m.step(SwitchEvent::HookExit { code: Some(0) });
    match a {
        SwitchAction::Finish { outcome } => match outcome {
            Ok(SwitchOutcome::ThemeSet { name }) => assert_eq!(name, "ocean"),
            _ => panic!("the embedded switch must succeed"),
        },
        _ => panic!("the run finishes after the bundle's hook"),
    }
}

#[test]
fn embedded_bundle_rejects_unknown_theme() {
    let (_, a) = set_command(
        ThemeName::new(String::from("zenburn")).unwrap(),
        String::from("/cfg"),
        ThemeSource::Embedded { bundle: ocean_bundle() },
        String::from("/cfg/base16_shell_theme"),
        String::from("/cfg/theme_name"),
    );
    match a {
        SwitchAction::Finish { outcome } => match outcome {
            Err(SwitchError::ThemeNotFound { script_path }) => {
                assert_eq!(script_path, "base16-zenburn.sh")
            }
            _ => panic!("an absent theme is reported as not found"),
        },
        _ => panic!("an absent theme ends the run at once"),
    }
}

#[test]
fn materialize_failure_stops_before_persisting() {
    let (m, _) = fs_request("ocean");
    let (m, _) = m.step(SwitchEvent::ScriptFound { found: true });
    let (m, _) = m.step(SwitchEvent::CurrentName { name: Some(String::new()) });
    let (m, _) = m.step(SwitchEvent::ScriptContents { contents: Some(String::from("s")) });
    let (_, a) = m.step(SwitchEvent::Materialized { ok: false });
    match a {
        SwitchAction::Finish { outcome } => match outcome {
            Err(SwitchError::IoFailure { op, path }) => {
                assert_eq!(op, "write");
                assert_eq!(path, "/cfg/base16_shell_theme");
            }
            _ => panic!("a failed write is an io failure"),
        },
        _ => panic!("a failed materialization ends the run"),
    }
}
