use base16_shell::hooks::{
    is_hook_file, select_hooks, sort_names, str_lex_leq, HookEnvironment,
    BASE16_SHELL_CONFIG_PATH_ENV, BASE16_SHELL_THEME_NAME_PATH_ENV, BASE16_THEME_ENV,
};

#[test]
fn hook_files_are_marked_by_extension() {
    assert!(is_hook_file("a.sh"));
    assert!(is_hook_file("50_tmux.sh"));
    assert!(!is_hook_file("a.txt"));
    assert!(!is_hook_file(".sh"));
    assert!(!is_hook_file("b.SH"));
    assert!(!is_hook_file("sh"));
    assert!(!is_hook_file("a.sh.bak"));
}

#[test]
fn lexicographic_order_on_names() {
    assert!(str_lex_leq("a.sh", "b.sh"));
    assert!(!str_lex_leq("b.sh", "a.sh"));
    assert!(str_lex_leq("a.sh", "a.sh"));
    assert!(str_lex_leq("a", "a.sh"));
    assert!(!str_lex_leq("a.sh", "a"));
    assert!(str_lex_leq("A.sh", "a.sh"));
}

#[test]
fn sorting_is_stable_under_duplicates() {
    let names = vec![
        String::from("b.sh"),
        String::from("a.sh"),
        String::from("b.sh"),
    ];
    let sorted = sort_names(names);
    assert_eq!(
        sorted,
        vec![String::from("a.sh"), String::from("b.sh"), String::from("b.sh")]
    );
}

#[test]
fn hooks_are_selected_and_ordered() {
    let files = vec![
        String::from("b.sh"),
        String::from("readme.md"),
        String::from("a.sh"),
        String::from("c.sh"),
        String::from(".sh"),
    ];
    let plan = select_hooks(&files);
    assert_eq!(
        plan,
        vec![String::from("a.sh"), String::from("b.sh"), String::from("c.sh")]
    );
}

#[test]
fn selecting_no_hooks_gives_an_empty_plan() {
    let files = vec![String::from("notes.txt")];
    assert_eq!(select_hooks(&files), Vec::<String>::new());
}

#[test]
fn hook_environment_exposes_its_three_variables() {
    let env = HookEnvironment {
        theme_name_path: String::from("/cfg/theme_name"),
        config_path: String::from("/cfg"),
        theme_name: String::from("ocean"),
    };
    let vars = env.vars();
    assert_eq!(vars.len(), 3);
    assert_eq!(vars[0].0, BASE16_SHELL_THEME_NAME_PATH_ENV);
    assert_eq!(vars[0].1, "/cfg/theme_name");
    assert_eq!(vars[1].0, BASE16_SHELL_CONFIG_PATH_ENV);
    assert_eq!(vars[1].1, "/cfg");
    assert_eq!(vars[2].0, BASE16_THEME_ENV);
    assert_eq!(vars[2].1, "ocean");
}

#[test]
fn hook_environment_variable_names_match_the_contract() {
    assert_eq!(BASE16_SHELL_THEME_NAME_PATH_ENV, "BASE16_SHELL_THEME_NAME_PATH");
    assert_eq!(BASE16_SHELL_CONFIG_PATH_ENV, "BASE16_CONFIG_PATH");
    assert_eq!(BASE16_THEME_ENV, "BASE16_THEME");
}
