//! Which configuration directory the agents in terminals read.

use crate::claims::{PathFacts, PathFactsView, coinciding};
use crate::collections::list_contains;
use crate::outside::home_dir;
use crate::paths::{below, path_below};
use crate::settings::{AppSettings, SettingsView, dir_setting};
use crate::text::{has_prefix, opt_text, same, strip_prefix, texts};
use vstd::prelude::*;

verus! {

/// What the agent goes by.
#[derive(Debug)]
pub struct AgentNames {
    /// The extension under which the settings keep its directory.
    pub extension: String,
    /// The directory that it uses below the user's home.
    pub directory: String,
}

/// What `path` names, with `home` for a leading `~`.
pub open spec fn home_expanded(
    windows: bool,
    home: Option<Seq<char>>,
    path: Seq<char>,
) -> Seq<char> {
    match home {
        Some(h) => if has_prefix(path, "~/"@) {
            below(windows, h, path.skip("~/"@.len() as int))
        } else if path == "~"@ {
            h
        } else {
            path
        },
        None => path,
    }
}

/// The directory that `path` names, where one is named and is there.
pub open spec fn existing(
    windows: bool,
    home: Option<Seq<char>>,
    there: Seq<Seq<char>>,
    path: Option<Seq<char>>,
) -> Option<Seq<char>> {
    match path {
        Some(p) => if p.len() > 0 && there.contains(home_expanded(windows, home, p)) {
            Some(home_expanded(windows, home, p))
        } else {
            None
        },
        None => None,
    }
}

/// The directory that is used where none is named.
pub open spec fn usual_dir(
    windows: bool,
    home: Option<Seq<char>>,
    names: AgentNames,
) -> Seq<char> {
    below(
        windows,
        match home {
            Some(h) => h,
            None => "."@,
        },
        names.directory@,
    )
}

/// The directory to read: the one that the settings name, else the one that the
/// environment names, else the usual one. One that is not there is passed over.
pub open spec fn config_dir(
    windows: bool,
    s: SettingsView,
    env: Option<Seq<char>>,
    home: Option<Seq<char>>,
    there: Seq<Seq<char>>,
    names: AgentNames,
) -> Seq<char> {
    match existing(windows, home, there, dir_setting(s, names.extension@)) {
        Some(d) => d,
        None => match existing(windows, home, there, env) {
            Some(d) => d,
            None => usual_dir(windows, home, names),
        },
    }
}

/// Whether `dir` is the usual directory.
pub open spec fn is_usual(
    f: PathFactsView,
    home: Option<Seq<char>>,
    names: AgentNames,
    dir: Seq<char>,
) -> bool {
    home is Some && coinciding(f, dir, usual_dir(f.windows, home, names))
}

/// A variable to set in a terminal, or to take out.
pub type EnvChange = (String, Option<String>);

/// What each change of `s` stands for.
pub open spec fn env_views(s: Seq<EnvChange>) -> Seq<(Seq<char>, Option<Seq<char>>)> {
    s.map_values(|e: EnvChange| (e.0@, opt_text(e.1)))
}

/// What terminals are told. For the usual directory the variable is taken out,
/// so that none that was inherited leaks in. Where there is only one profile
/// and the user set the variable, it is left alone.
pub open spec fn pty_env(
    f: PathFactsView,
    home: Option<Seq<char>>,
    names: AgentNames,
    dir: Seq<char>,
    multi_profile: bool,
    parent_has: bool,
) -> Seq<(Seq<char>, Option<Seq<char>>)> {
    if is_usual(f, home, names, dir) {
        seq![("CLAUDE_CONFIG_DIR"@, None)]
    } else if !multi_profile && parent_has {
        Seq::empty()
    } else {
        seq![("CLAUDE_CONFIG_DIR"@, Some(dir))]
    }
}

/// What `path` names, with `home` for a leading `~`.
pub fn expand_home(windows: bool, home: &Option<String>, path: &str) -> (r: String)
    ensures
        r@ == home_expanded(windows, opt_text(*home), path@),
{
    if let Some(h) = home {
        if let Some(rest) = strip_prefix(path, "~/") {
            return path_below(windows, h.as_str(), rest);
        }
        if same(path, "~") {
            return h.clone();
        }
    }
    path.to_owned()
}

/// The directory that is used where none is named.
fn usual(windows: bool, home: &Option<String>, names: &AgentNames) -> (r: String)
    ensures
        r@ == usual_dir(windows, opt_text(*home), *names),
{
    match home {
        Some(h) => path_below(windows, h.as_str(), names.directory.as_str()),
        None => path_below(windows, ".", names.directory.as_str()),
    }
}

/// The directory that `path` names, where one is named and is there.
fn existing_path(
    windows: bool,
    home: &Option<String>,
    there: &Vec<String>,
    path: Option<&str>,
) -> (r: Option<String>)
    ensures
        opt_text(r) == existing(
            windows,
            opt_text(*home),
            texts(there@),
            match path {
                Some(p) => Some(p@),
                None => None,
            },
        ),
{
    match path {
        Some(p) => {
            if p.is_empty() {
                return None;
            }
            let d = expand_home(windows, home, p);
            if list_contains(there, d.as_str()) {
                Some(d)
            } else {
                None
            }
        },
        None => None,
    }
}

/// The directory to read. `env` is what the environment names, and `there` the
/// paths that exist.
pub fn resolve_claude_dir_with(
    settings: &AppSettings,
    env: &Option<String>,
    home: &Option<String>,
    there: &Vec<String>,
    names: &AgentNames,
    windows: bool,
) -> (r: String)
    ensures
        r@ == config_dir(
            windows,
            settings@,
            opt_text(*env),
            opt_text(*home),
            texts(there@),
            *names,
        ),
{
    if let Some(d) = existing_path(
        windows,
        home,
        there,
        settings.config_dir(names.extension.as_str()),
    ) {
        return d;
    }
    let named: Option<&str> = match env {
        Some(s) => Some(s.as_str()),
        None => None,
    };
    match existing_path(windows, home, there, named) {
        Some(d) => d,
        None => usual(windows, home, names),
    }
}

/// The directory to read, for the user's home directory.
pub fn resolve_claude_dir(
    settings: &AppSettings,
    env: &Option<String>,
    there: &Vec<String>,
    names: &AgentNames,
    windows: bool,
) -> (r: String)
    ensures
        exists|home: Option<Seq<char>>|
            r@ == #[trigger] config_dir(
                windows,
                settings@,
                opt_text(*env),
                home,
                texts(there@),
                *names,
            ),
{
    let home = home_dir();
    resolve_claude_dir_with(settings, env, &home, there, names, windows)
}

/// Whether `dir` is the usual directory.
pub fn is_default_claude_dir(
    f: &PathFacts,
    home: &Option<String>,
    names: &AgentNames,
    dir: &str,
) -> (r: bool)
    ensures
        r == is_usual(f@, opt_text(*home), *names, dir@),
{
    match home {
        Some(_) => f.coincide(dir, usual(f.windows, home, names).as_str()),
        None => false,
    }
}

/// What terminals are told, with `home` for the home directory.
pub fn claude_pty_extra_env_with(
    f: &PathFacts,
    home: &Option<String>,
    names: &AgentNames,
    claude_dir: &str,
    multi_profile: bool,
    parent_has_claude_config_dir: bool,
) -> (r: Vec<EnvChange>)
    ensures
        env_views(r@) == pty_env(
            f@,
            opt_text(*home),
            *names,
            claude_dir@,
            multi_profile,
            parent_has_claude_config_dir,
        ),
{
    let mut out: Vec<EnvChange> = Vec::new();
    if is_default_claude_dir(f, home, names, claude_dir) {
        out.push(("CLAUDE_CONFIG_DIR".to_owned(), None));
    } else if multi_profile || !parent_has_claude_config_dir {
        out.push(("CLAUDE_CONFIG_DIR".to_owned(), Some(claude_dir.to_owned())));
    }
    proof {
        assert(env_views(out@) =~= pty_env(
            f@,
            opt_text(*home),
            *names,
            claude_dir@,
            multi_profile,
            parent_has_claude_config_dir,
        ));
    }
    out
}

/// What terminals are told, for the user's home directory.
pub fn claude_pty_extra_env(
    f: &PathFacts,
    names: &AgentNames,
    claude_dir: &str,
    multi_profile: bool,
    parent_has_claude_config_dir: bool,
) -> (r: Vec<EnvChange>)
    ensures
        exists|home: Option<Seq<char>>|
            env_views(r@) == #[trigger] pty_env(
                f@,
                home,
                *names,
                claude_dir@,
                multi_profile,
                parent_has_claude_config_dir,
            ),
{
    let home = home_dir();
    claude_pty_extra_env_with(
        f,
        &home,
        names,
        claude_dir,
        multi_profile,
        parent_has_claude_config_dir,
    )
}

/// What terminals are told for these settings. `env` is what the environment
/// names.
pub fn claude_pty_env_for_settings(
    settings: &AppSettings,
    env: &Option<String>,
    home: &Option<String>,
    there: &Vec<String>,
    f: &PathFacts,
    names: &AgentNames,
    multi_profile: bool,
) -> (r: Vec<EnvChange>)
    ensures
        env_views(r@) == pty_env(
            f@,
            opt_text(*home),
            *names,
            config_dir(
                f@.windows,
                settings@,
                opt_text(*env),
                opt_text(*home),
                texts(there@),
                *names,
            ),
            multi_profile,
            *env is Some,
        ),
{
    let dir = resolve_claude_dir_with(settings, env, home, there, names, f.windows);
    claude_pty_extra_env_with(f, home, names, dir.as_str(), multi_profile, env.is_some())
}

/// For the usual directory the variable is taken out, however many profiles
/// there are and whatever was inherited.
pub proof fn the_usual_directory_is_never_named(
    f: PathFactsView,
    home: Option<Seq<char>>,
    names: AgentNames,
    dir: Seq<char>,
    multi_profile: bool,
    parent_has: bool,
)
    requires
        is_usual(f, home, names, dir),
    ensures
        pty_env(f, home, names, dir, multi_profile, parent_has) == seq![
            ("CLAUDE_CONFIG_DIR"@, None::<Seq<char>>),
        ],
{
}

} // verus!
