use together_rs::config::{
    collect_commands_by_recipes, compare_versions, check_version, get_running_commands,
    get_unique_recipes, true_value, CommandConfig, CommandIndex, ConfigFileStartOptions,
    TogetherConfigFile, VersionCheck,
};

fn detailed(
    command: &str,
    alias: Option<&str>,
    active: Option<bool>,
    recipes: Option<Vec<&str>>,
) -> CommandConfig {
    CommandConfig::Detailed {
        command: command.to_string(),
        alias: alias.map(|a| a.to_string()),
        active,
        recipes: recipes.map(|r| r.into_iter().map(|x| x.to_string()).collect()),
    }
}

fn start_options(commands: Vec<CommandConfig>) -> ConfigFileStartOptions {
    ConfigFileStartOptions {
        commands,
        all: false,
        exit_on_error: false,
        quit_on_completion: false,
        quiet_startup: false,
        raw: true,
        init_only: false,
        no_init: false,
    }
}

#[test]
fn simple_command_accessors() {
    let c = CommandConfig::Simple("cargo run".to_string());
    assert_eq!(c.as_str(), "cargo run");
    assert!(c.alias().is_none());
    assert!(!c.is_active());
    assert!(c.recipes().is_empty());
    assert!(!c.contains_recipe("web"));
}

#[test]
fn detailed_command_accessors() {
    let c = detailed("npm start", Some("web"), Some(true), Some(vec!["frontend", "all"]));
    assert_eq!(c.as_str(), "npm start");
    assert_eq!(c.alias(), Some("web"));
    assert!(c.is_active());
    assert_eq!(c.recipes(), vec!["frontend".to_string(), "all".to_string()]);
}

#[test]
fn matches_by_text_and_alias() {
    let c = detailed("npm start", Some("web"), None, None);
    assert!(c.matches("npm start"));
    assert!(c.matches("web"));
    assert!(!c.matches("npm"));
    let s = CommandConfig::Simple("ls".to_string());
    assert!(s.matches("ls"));
    assert!(!s.matches("l"));
}

#[test]
fn contains_recipe_is_case_insensitive_and_trims() {
    let c = detailed("npm start", None, None, Some(vec!["FrontEnd"]));
    assert!(c.contains_recipe("frontend"));
    assert!(c.contains_recipe("  FRONTEND \t"));
    assert!(!c.contains_recipe("front"));
    let no_recipes = detailed("x", None, None, None);
    assert!(!no_recipes.contains_recipe("frontend"));
}

#[test]
fn contains_recipe_trims_unicode_whitespace() {
    let c = detailed("npm start", None, None, Some(vec!["frontend"]));
    // U+00A0 (no-break space) is Unicode whitespace and is trimmed away
    assert!(c.contains_recipe("\u{A0}frontend\u{A0}"));
    assert!(c.contains_recipe("\u{2003}FRONTEND\t"));
}

#[test]
fn retrieve_by_position() {
    let commands = vec![
        CommandConfig::Simple("a".to_string()),
        CommandConfig::Simple("b".to_string()),
    ];
    let got = CommandIndex::Simple(1).retrieve(&commands);
    assert_eq!(got.map(|c| c.as_str()), Some("b"));
    assert!(CommandIndex::Simple(2).retrieve(&commands).is_none());
}

#[test]
fn retrieve_prefers_alias_over_command_text() {
    let commands = vec![
        CommandConfig::Simple("web".to_string()),
        detailed("npm start", Some("web"), None, None),
    ];
    // the alias match at position 1 wins over the text match at position 0
    let got = CommandIndex::Alias("web".to_string()).retrieve(&commands);
    assert_eq!(got.map(|c| c.as_str()), Some("npm start"));
}

#[test]
fn retrieve_falls_back_to_command_text() {
    let commands = vec![
        CommandConfig::Simple("a".to_string()),
        CommandConfig::Simple("b".to_string()),
    ];
    let got = CommandIndex::Alias("b".to_string()).retrieve(&commands);
    assert_eq!(got.map(|c| c.as_str()), Some("b"));
    assert!(CommandIndex::Alias("c".to_string()).retrieve(&commands).is_none());
}

#[test]
fn as_commands_lists_texts_in_order() {
    let opts = start_options(vec![
        CommandConfig::Simple("a".to_string()),
        detailed("b", Some("bee"), None, None),
    ]);
    assert_eq!(opts.as_commands(), vec!["a".to_string(), "b".to_string()]);
}

#[test]
fn default_raw_value() {
    assert!(true_value());
}

#[test]
fn with_running_stores_first_matching_positions() {
    let cfg = TogetherConfigFile::new(start_options(vec![
        CommandConfig::Simple("a".to_string()),
        detailed("b", Some("bee"), None, None),
        CommandConfig::Simple("c".to_string()),
    ]));
    let cfg = cfg.with_running(&vec!["bee".to_string(), "c".to_string()]);
    let running = cfg.running.as_ref().expect("running should be recorded");
    let resolved = get_running_commands(&cfg, running);
    assert_eq!(resolved, vec!["b".to_string(), "c".to_string()]);
}

#[test]
fn running_commands_merges_running_and_active_without_duplicates() {
    let mut cfg = TogetherConfigFile::new(start_options(vec![
        CommandConfig::Simple("a".to_string()),
        detailed("b", None, Some(true), None),
        CommandConfig::Simple("c".to_string()),
    ]));
    cfg.running = Some(vec![CommandIndex::Simple(1), CommandIndex::Simple(2)]);
    // "b" is both remembered as running and active-by-default: kept once
    let got = cfg.running_commands().expect("commands should be reported");
    assert_eq!(got, vec!["b".to_string(), "c".to_string()]);
}

#[test]
fn running_commands_empty_reports_nothing() {
    let cfg = TogetherConfigFile::new(start_options(vec![
        CommandConfig::Simple("a".to_string()),
    ]));
    assert!(cfg.running_commands().is_none());
}

#[test]
fn running_commands_skips_unresolvable_indices() {
    let mut cfg = TogetherConfigFile::new(start_options(vec![
        CommandConfig::Simple("a".to_string()),
    ]));
    cfg.running = Some(vec![CommandIndex::Simple(9), CommandIndex::Simple(0)]);
    let got = cfg.running_commands().expect("commands should be reported");
    assert_eq!(got, vec!["a".to_string()]);
}

#[test]
fn unique_recipes_keep_first_appearance() {
    let opts = start_options(vec![
        detailed("a", None, None, Some(vec!["web", "all"])),
        detailed("b", None, None, Some(vec!["all", "db"])),
        CommandConfig::Simple("c".to_string()),
    ]);
    let got = get_unique_recipes(&opts);
    assert_eq!(got, vec!["web".to_string(), "all".to_string(), "db".to_string()]);
}

#[test]
fn commands_by_recipes_selects_tagged_commands() {
    let opts = start_options(vec![
        detailed("a", None, None, Some(vec!["web"])),
        detailed("b", None, None, Some(vec!["db"])),
        CommandConfig::Simple("c".to_string()),
    ]);
    let got = collect_commands_by_recipes(&opts, &vec!["WEB ".to_string(), "db".to_string()]);
    assert_eq!(got, vec!["a".to_string(), "b".to_string()]);
    let none = collect_commands_by_recipes(&opts, &vec!["other".to_string()]);
    assert!(none.is_empty());
}

#[test]
fn version_verdicts() {
    assert!(matches!(compare_versions((1, 4), None), VersionCheck::Missing));
    assert!(matches!(
        compare_versions((1, 4), Some((2, 0))),
        VersionCheck::ConfigNewerMajor
    ));
    assert!(matches!(
        compare_versions((1, 4), Some((1, 5))),
        VersionCheck::ConfigNewerMinor
    ));
    assert!(matches!(
        compare_versions((1, 4), Some((1, 4))),
        VersionCheck::Compatible
    ));
    // the minor is compared on its own, as the session-restore rule has it,
    // so an older major with a newer minor still only warns
    assert!(matches!(
        compare_versions((1, 4), Some((0, 9))),
        VersionCheck::ConfigNewerMinor
    ));
}

#[test]
fn check_version_on_config_files() {
    let mut cfg = TogetherConfigFile::new(start_options(vec![]));
    cfg.version = None;
    assert!(matches!(check_version(&cfg, "1.0.0"), VersionCheck::Missing));
    cfg.version = Some("not-a-version".to_string());
    assert!(matches!(check_version(&cfg, "1.0.0"), VersionCheck::Unparseable));
    cfg.version = Some("1.2.3".to_string());
    assert!(matches!(check_version(&cfg, "1.1.0"), VersionCheck::ConfigNewerMinor));
    assert!(matches!(check_version(&cfg, "1.2.9"), VersionCheck::Compatible));
    assert!(matches!(check_version(&cfg, "0.9.9"), VersionCheck::ConfigNewerMajor));
}

#[test]
fn config_equality_drives_deduplication() {
    let a = detailed("x", Some("ex"), Some(true), Some(vec!["r"]));
    let b = detailed("x", Some("ex"), Some(true), Some(vec!["r"]));
    let c = detailed("x", Some("ex"), Some(true), Some(vec!["r", "s"]));
    assert!(a == b);
    assert!(a != c);
}
