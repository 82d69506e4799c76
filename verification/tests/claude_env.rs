//! Which configuration directory the agents in terminals read.

use okena_workspace::claims::PathFacts;
use okena_workspace::claude_env::{
    AgentNames, claude_pty_env_for_settings, claude_pty_extra_env, claude_pty_extra_env_with,
    resolve_claude_dir, resolve_claude_dir_with,
};
use okena_workspace::settings::{AppSettings, ExtensionSettings};

fn home() -> Option<String> {
    Some("/home/me".to_string())
}

fn names() -> AgentNames {
    AgentNames {
        extension: "agent-code".to_string(),
        directory: ".agent".to_string(),
    }
}

#[test]
fn default_claude_dir_unsets_pty_env() {
    let default_dir = dirs::home_dir().unwrap().join(".agent");
    let facts = PathFacts::none();
    for &(multi, parent) in &[(false, false), (true, false), (false, true), (true, true)] {
        let env = claude_pty_extra_env(&facts, &names(), &default_dir.to_string_lossy(), multi, parent);
        assert_eq!(env.len(), 1, "multi={multi} parent={parent}");
        assert_eq!(env[0].0, "CLAUDE_CONFIG_DIR");
        assert_eq!(env[0].1, None, "default dir must unset, not set");
    }
}

#[test]
fn single_profile_keeps_parent_claude_config_dir() {
    let facts = PathFacts::none();
    assert!(claude_pty_extra_env(&facts, &names(), "/tmp/okena-custom-dir", false, true).is_empty());
}

#[test]
fn custom_claude_dir_is_exported_to_pty() {
    let facts = PathFacts::none();
    let env = claude_pty_extra_env(&facts, &names(), "/tmp/okena-custom-dir", true, true);
    assert_eq!(env.len(), 1);
    assert_eq!(env[0].0, "CLAUDE_CONFIG_DIR");
    assert_eq!(env[0].1.as_deref(), Some("/tmp/okena-custom-dir"));
}

#[test]
fn a_directory_that_is_the_default_under_another_name_counts_as_the_default() {
    let mut facts = PathFacts::none();
    facts
        .identities
        .insert("/tmp/link".to_string(), "/home/me/.agent".to_string());
    let env = claude_pty_extra_env_with(&facts, &home(), &names(), "/tmp/link", true, false);
    assert_eq!(env, vec![("CLAUDE_CONFIG_DIR".to_string(), None)]);
    let env = claude_pty_extra_env_with(&facts, &None, &names(), "/home/me/.agent", true, false);
    assert_eq!(env[0].1.as_deref(), Some("/home/me/.agent"));
}

fn configured(dir: &str) -> AppSettings {
    let mut settings = AppSettings::default();
    let mut blob = serde_json::Map::new();
    blob.insert(
        "config_dir".to_string(),
        serde_json::Value::String(dir.to_string()),
    );
    settings.extension_settings.push(ExtensionSettings {
        extension: "agent-code".to_string(),
        value: serde_json::Value::Object(blob),
    });
    settings
}

#[test]
fn settings_come_before_the_environment_and_missing_directories_are_passed_over() {
    let there = vec!["/home/me/work".to_string(), "/env".to_string()];
    let env = Some("/env".to_string());
    let none: Option<String> = None;
    let resolve = |s: &AppSettings, e: &Option<String>| resolve_claude_dir_with(s, e, &home(), &there, &names(), false);
    assert_eq!(resolve(&configured("~/work"), &env), "/home/me/work");
    assert_eq!(resolve(&configured("~/gone"), &env), "/env");
    assert_eq!(resolve(&configured(""), &none), "/home/me/.agent");
    assert_eq!(
        resolve(&AppSettings::default(), &Some("/gone".to_string())),
        "/home/me/.agent"
    );
    assert_eq!(
        resolve_claude_dir_with(&AppSettings::default(), &none, &None, &there, &names(), false),
        "./.agent"
    );
}

#[test]
fn the_usual_directory_is_below_the_users_home() {
    let expected = dirs::home_dir().unwrap().join(".agent");
    assert_eq!(
        resolve_claude_dir(&AppSettings::default(), &None, &Vec::new(), &names(), false),
        expected.to_string_lossy()
    );
}

#[test]
fn terminals_are_told_what_the_settings_name() {
    let there = vec!["/work".to_string()];
    let facts = PathFacts::none();
    let env = claude_pty_env_for_settings(&configured("/work"), &None, &home(), &there, &facts, &names(), false);
    assert_eq!(
        env,
        vec![("CLAUDE_CONFIG_DIR".to_string(), Some("/work".to_string()))]
    );
    let kept = claude_pty_env_for_settings(
        &configured("/work"),
        &Some("/mine".to_string()),
        &home(),
        &there,
        &facts,
        &names(),
        false,
    );
    assert!(kept.is_empty());
}
