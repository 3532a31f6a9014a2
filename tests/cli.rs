use lune::cli::{choose_script_file, Cli, DownloadAsset, PathExtension, RunAction, ScriptFile};

#[test]
fn from_path_sets_only_the_path() {
    let cli = Cli::from_path("scripts/hello");
    assert_eq!(cli.script_path().as_deref(), Some("scripts/hello"));
    assert!(cli.script_args().is_empty());
    assert!(!cli.wants_type_download());
}

#[test]
fn from_path_with_args_keeps_the_args() {
    let cli = Cli::from_path_with_args("a.luau", vec!["x".to_string(), "y".to_string()]);
    assert_eq!(cli.script_path().as_deref(), Some("a.luau"));
    assert_eq!(cli.script_args(), &vec!["x".to_string(), "y".to_string()]);
    assert!(!cli.download_selene_types());
    assert!(!cli.download_luau_types());
}

#[test]
fn type_download_is_wanted_for_either_flag() {
    assert!(Cli::with_options(None, vec![], true, false).wants_type_download());
    assert!(Cli::with_options(None, vec![], false, true).wants_type_download());
    assert!(!Cli::with_options(None, vec![], false, false).wants_type_download());
    let d = Cli::default();
    assert!(d.script_path().is_none());
    assert!(!d.wants_type_download());
}

#[test]
fn downloads_are_listed_selene_first() {
    let both = Cli::with_options(None, vec![], true, true);
    assert_eq!(both.requested_downloads(), vec![DownloadAsset::SeleneTypes, DownloadAsset::LuauTypes]);
    let luau = Cli::with_options(None, vec![], false, true);
    assert_eq!(luau.requested_downloads(), vec![DownloadAsset::LuauTypes]);
    assert!(Cli::from_path("x").requested_downloads().is_empty());
}

#[test]
fn next_action_follows_path_and_downloads() {
    assert_eq!(Cli::from_path("x").next_action(), RunAction::RunScript);
    assert_eq!(Cli::with_options(Some("x".to_string()), vec![], true, false).next_action(), RunAction::RunScript);
    assert_eq!(Cli::with_options(None, vec![], false, true).next_action(), RunAction::Finish);
    assert_eq!(Cli::default().next_action(), RunAction::ShowHelp);
}

#[test]
fn script_file_choice_follows_extension_and_existence() {
    assert_eq!(choose_script_file(PathExtension::Lua, false, false, false), Some(ScriptFile::AsGiven));
    assert_eq!(choose_script_file(PathExtension::Luau, true, false, false), Some(ScriptFile::AsGiven));
    assert_eq!(choose_script_file(PathExtension::Luau, false, true, true), None);
    assert_eq!(choose_script_file(PathExtension::Other, true, true, true), None);
    assert_eq!(choose_script_file(PathExtension::Missing, false, true, true), Some(ScriptFile::WithLua));
    assert_eq!(choose_script_file(PathExtension::Missing, false, false, true), Some(ScriptFile::WithLuau));
    assert_eq!(choose_script_file(PathExtension::Missing, true, false, false), None);
}
