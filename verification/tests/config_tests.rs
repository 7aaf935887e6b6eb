use inc::config::{
    default_description, default_ignore_failures, config_file, discover_project_configs,
    exec_command_from_doc, home_config_from_doc, load_project_config, project_config_from_doc,
    ConfigContainer, DirProbe,
};
use inc::document::DocValue;

fn str_value(s: &str) -> DocValue {
    DocValue::Str(s.to_string())
}

fn command_doc(pairs: Vec<(&str, DocValue)>) -> DocValue {
    DocValue::Table(pairs.into_iter().map(|(k, v)| (str_value(k), v)).collect())
}

#[test]
fn commands_normalization() {
    let pc1 = load_project_config("exec:\n  build:\n    commands: \"echo hi\"\n")
        .expect("scalar form should load");
    let pc2 = load_project_config("exec:\n  build:\n    commands: [\"echo hi\"]\n")
        .expect("list form should load");
    assert_eq!(pc1.commands[0].1.commands, vec!["echo hi".to_string()]);
    assert_eq!(pc1.commands[0].1, pc2.commands[0].1);
}

#[test]
fn defaults_apply() {
    let doc = command_doc(vec![("commands", str_value("echo hi"))]);
    let cfg = exec_command_from_doc(&doc).expect("command should load");
    assert_eq!(cfg.ignore_failures, false);
    assert_eq!(cfg.description, "No Description Provided");
    assert_eq!(default_description(), "No Description Provided");
    assert_eq!(default_ignore_failures(), false);
}

#[test]
fn explicit_fields_kept() {
    let doc = command_doc(vec![
        ("commands", DocValue::List(vec![str_value("a"), str_value("b")])),
        ("ignore_failures", DocValue::Bool(true)),
        ("description", str_value("builds")),
    ]);
    let cfg = exec_command_from_doc(&doc).expect("command should load");
    assert_eq!(cfg.commands, vec!["a".to_string(), "b".to_string()]);
    assert!(cfg.ignore_failures);
    assert_eq!(cfg.description, "builds");
}

#[test]
fn empty_step_list_rejected() {
    let doc = command_doc(vec![("commands", DocValue::List(vec![]))]);
    assert!(exec_command_from_doc(&doc).is_none());
}

#[test]
fn cascade_precedence() {
    let closer = "exec:\n  build:\n    commands: \"make fast\"\n".to_string();
    let farther = "exec:\n  build:\n    commands: \"make slow\"\n  test:\n    commands: \"make check\"\n"
        .to_string();
    let container = ConfigContainer::new(&vec![closer, farther], &None);
    let table = container.get_exec_configs();
    let build = table.get("build").expect("build should be defined");
    assert_eq!(build.commands, vec!["make fast".to_string()]);
    let test = table.get("test").expect("test should be defined");
    assert_eq!(test.commands, vec!["make check".to_string()]);
}

#[test]
fn unparsable_project_config_skipped() {
    let bad = "exec: [unclosed".to_string();
    let good = "exec:\n  build:\n    commands: \"echo ok\"\n".to_string();
    let container = ConfigContainer::new(&vec![bad, good], &None);
    let table = container.get_exec_configs();
    let build = table.get("build").expect("build should survive the bad file");
    assert_eq!(build.commands, vec!["echo ok".to_string()]);
}

#[test]
fn home_fallback() {
    let container = ConfigContainer::new(&vec![], &None);
    let home = container.get_home_configs();
    assert_eq!(home.checkout.default_provider, None);
}

#[test]
fn unparsable_home_config_falls_back() {
    let container = ConfigContainer::new(&vec![], &Some("checkout: [broken".to_string()));
    assert_eq!(container.get_home_configs().checkout.default_provider, None);
}

#[test]
fn home_provider_read() {
    let text = "checkout:\n  default-provider: gitlab\n".to_string();
    let container = ConfigContainer::new(&vec![], &Some(text));
    assert_eq!(
        container.get_home_configs().checkout.default_provider,
        Some("gitlab".to_string())
    );
}

#[test]
fn home_config_needs_checkout_table() {
    let doc = command_doc(vec![("other", DocValue::Null)]);
    assert!(home_config_from_doc(&doc).is_none());
}

#[test]
fn duplicate_command_names_rejected() {
    let build = command_doc(vec![("commands", str_value("echo hi"))]);
    let build2 = command_doc(vec![("commands", str_value("echo again"))]);
    let doc = command_doc(vec![(
        "exec",
        DocValue::Table(vec![
            (str_value("build"), build),
            (str_value("build"), build2),
        ]),
    )]);
    assert!(project_config_from_doc(&doc).is_none());
}

#[test]
fn config_file_prefers_yaml() {
    assert_eq!(config_file("", "/a/b", true, true), Some("/a/b/inc.yaml".to_string()));
    assert_eq!(config_file("", "/a/b", false, true), Some("/a/b/inc.yml".to_string()));
    assert_eq!(config_file(".", "/home/me", true, false), Some("/home/me/.inc.yaml".to_string()));
    assert_eq!(config_file("", "/a/b", false, false), None);
}

#[test]
fn discovery_is_closest_first() {
    let levels = vec![
        DirProbe { dir: "/a/b".to_string(), has_yaml: false, has_yml: true },
        DirProbe { dir: "/a".to_string(), has_yaml: true, has_yml: true },
        DirProbe { dir: "/".to_string(), has_yaml: false, has_yml: false },
    ];
    let found = discover_project_configs(&levels);
    assert_eq!(found, vec!["/a/b/inc.yml".to_string(), "/a/inc.yaml".to_string()]);
}

#[test]
fn toml_checkout_default() {
    let home = "[config]\ndefault = \"github\"\n".to_string();
    let container = inc::toml_config::ConfigContainer::new(&vec![], &vec![home]);
    assert_eq!(container.get_checkout_configs().default, Some("github".to_string()));
}

#[test]
fn toml_checkout_default_absent() {
    let container = inc::toml_config::ConfigContainer::new(&vec![], &vec![]);
    assert_eq!(container.get_checkout_configs().default, None);
    let bad = "not toml [".to_string();
    let container = inc::toml_config::ConfigContainer::new(&vec![], &vec![bad]);
    assert_eq!(container.get_checkout_configs().default, None);
}

#[test]
fn toml_config_file_name() {
    assert_eq!(
        inc::toml_config::config_file(".", "/home/me", true),
        Some("/home/me/.inc.toml".to_string())
    );
    assert_eq!(inc::toml_config::config_file("", "/a", false), None);
}
