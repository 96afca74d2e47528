use hyprland_autoname_workspaces::client::{AppClient, FullscreenMode};
use hyprland_autoname_workspaces::config::{Args, Config, ConfigFile};
use hyprland_autoname_workspaces::icon::IconConfig::Class;
use hyprland_autoname_workspaces::icon::IconStatus::{Active, Inactive};
use hyprland_autoname_workspaces::renamer::Renamer;
use hyprland_autoname_workspaces::render::AppWorkspace;
use hyprland_autoname_workspaces::table::WorkspaceMap;
use hyprland_autoname_workspaces::text::to_superscript;
use hyprland_autoname_workspaces::workspace::{
    get_workspace_name, workspace_type_from_parts, WorkspaceType,
};
use std::collections::HashMap;

fn workspace_type(id: i32) -> WorkspaceType {
    workspace_type_from_parts(id, "")
}

fn workspace(id: i32, clients: Vec<AppClient>) -> AppWorkspace {
    AppWorkspace::new(workspace_type(id), id, clients)
}

fn as_map(labels: &WorkspaceMap<String>) -> HashMap<WorkspaceType, String> {
    labels.entries().iter().cloned().collect()
}

#[test]
fn test_app_client_partial_eq() {
    let client1 = AppClient {
        initial_class: "kitty".to_string(),
        class: "kitty".to_string(),
        title: "~".to_string(),
        is_active: false,
        is_fullscreen: FullscreenMode::Fullscreen,
        initial_title: "zsh".to_string(),
        matched_rule: Inactive(Class("(kitty|alacritty)".to_string(), "term".to_string())),
        is_dedup_inactive_fullscreen: false,
    };

    let client2 = AppClient {
        initial_class: "alacritty".to_string(),
        class: "alacritty".to_string(),
        title: "xplr".to_string(),
        initial_title: "zsh".to_string(),
        is_active: false,
        is_fullscreen: FullscreenMode::Fullscreen,
        matched_rule: Inactive(Class("(kitty|alacritty)".to_string(), "term".to_string())),
        is_dedup_inactive_fullscreen: false,
    };

    let client3 = AppClient {
        initial_class: "kitty".to_string(),
        class: "kitty".to_string(),
        title: "".to_string(),
        initial_title: "zsh".to_string(),
        is_active: true,
        is_fullscreen: FullscreenMode::Normal,
        matched_rule: Active(Class("(kitty|alacritty)".to_string(), "term".to_string())),
        is_dedup_inactive_fullscreen: false,
    };

    let client4 = AppClient {
        initial_class: "alacritty".to_string(),
        class: "alacritty".to_string(),
        title: "".to_string(),
        initial_title: "zsh".to_string(),
        is_active: false,
        is_fullscreen: FullscreenMode::Fullscreen,
        matched_rule: Inactive(Class("(kitty|alacritty)".to_string(), "term".to_string())),
        is_dedup_inactive_fullscreen: false,
    };

    let client5 = AppClient {
        initial_class: "kitty".to_string(),
        class: "kitty".to_string(),
        title: "".to_string(),
        initial_title: "zsh".to_string(),
        is_active: false,
        is_fullscreen: FullscreenMode::Fullscreen,
        matched_rule: Inactive(Class("(kitty|alacritty)".to_string(), "term".to_string())),
        is_dedup_inactive_fullscreen: false,
    };

    let client6 = AppClient {
        initial_class: "alacritty".to_string(),
        class: "alacritty".to_string(),
        title: "".to_string(),
        initial_title: "zsh".to_string(),
        is_active: false,
        is_fullscreen: FullscreenMode::Normal,
        matched_rule: Inactive(Class("alacritty".to_string(), "term".to_string())),
        is_dedup_inactive_fullscreen: false,
    };

    assert_eq!(client1 == client2, true);
    assert_eq!(client4 == client5, true);
    assert_eq!(client1 == client4, true);
    assert_eq!(client1 == client3, false);
    assert_eq!(client5 == client6, false);
}

#[test]
fn test_dedup_kitty_and_alacritty_if_one_regex() {
    let mut config = ConfigFile::default();
    config
        .class
        .push(("(kitty|alacritty)".to_string(), "term".to_string()));

    config.format.dedup = true;
    config.format.client_dup = "{icon}{counter}".to_string();

    let renamer = Renamer::new(
        Config {
            cfg_path: None,
            config: config.clone(),
        },
        Args {
            verbose: false,
            debug: false,
            config: None,
            dump: false,
            migrate_config: false,
        },
    );

    let expected = [(workspace_type(1), "term5".to_string())]
        .into_iter()
        .collect();

    let actual = renamer.generate_workspaces_string(
        vec![workspace(
            1,
            vec![
                AppClient {
                    initial_class: "kitty".to_string(),
                    class: "kitty".to_string(),
                    title: "kitty".to_string(),
                    initial_title: "kitty".to_string(),
                    is_active: false,
                    is_fullscreen: FullscreenMode::Normal,
                    matched_rule: renamer.parse_icon(
                        "kitty".to_string(),
                        "kitty".to_string(),
                        "kitty".to_string(),
                        "kitty".to_string(),
                        false,
                        &config,
                    ),
                    is_dedup_inactive_fullscreen: false,
                },
                AppClient {
                    class: "kitty".to_string(),
                    initial_class: "kitty".to_string(),
                    title: "kitty".to_string(),
                    initial_title: "kitty".to_string(),
                    is_active: false,
                    is_fullscreen: FullscreenMode::Normal,
                    matched_rule: renamer.parse_icon(
                        "kitty".to_string(),
                        "kitty".to_string(),
                        "kitty".to_string(),
                        "kitty".to_string(),
                        false,
                        &config,
                    ),
                    is_dedup_inactive_fullscreen: false,
                },
                AppClient {
                    initial_class: "alacritty".to_string(),
                    class: "alacritty".to_string(),
                    title: "alacritty".to_string(),
                    initial_title: "alacritty".to_string(),
                    is_active: false,
                    is_fullscreen: FullscreenMode::Normal,
                    matched_rule: renamer.parse_icon(
                        "alacritty".to_string(),
                        "alacritty".to_string(),
                        "alacritty".to_string(),
                        "alacritty".to_string(),
                        false,
                        &config,
                    ),
                    is_dedup_inactive_fullscreen: false,
                },
                AppClient {
                    class: "alacritty".to_string(),
                    initial_class: "alacritty".to_string(),
                    title: "alacritty".to_string(),
                    initial_title: "alacritty".to_string(),
                    is_active: false,
                    is_fullscreen: FullscreenMode::Normal,
                    matched_rule: renamer.parse_icon(
                        "alacritty".to_string(),
                        "alacritty".to_string(),
                        "alacritty".to_string(),
                        "alacritty".to_string(),
                        false,
                        &config,
                    ),
                    is_dedup_inactive_fullscreen: false,
                },
                AppClient {
                    initial_class: "alacritty".to_string(),
                    class: "alacritty".to_string(),
                    title: "alacritty".to_string(),
                    initial_title: "alacritty".to_string(),
                    is_active: false,
                    is_fullscreen: FullscreenMode::Normal,
                    matched_rule: renamer.parse_icon(
                        "alacritty".to_string(),
                        "alacritty".to_string(),
                        "alacritty".to_string(),
                        "alacritty".to_string(),
                        false,
                        &config,
                    ),
                    is_dedup_inactive_fullscreen: false,
                },
            ],
        )],
        &config,
    );

    assert_eq!(as_map(&actual), expected);
}

#[test]
fn test_parse_icon_initial_title_and_initial_title_active() {
    let mut config = ConfigFile::default();
    config
        .class
        .push(("kitty".to_string(), "term".to_string()));

    config
        .class
        .push(("alacritty".to_string(), "term".to_string()));

    config.initial_title_in_class.push((
        "(kitty|alacritty)".to_string(),
        vec![("zsh".to_string(), "Zsh".to_string())],
    ));

    config.initial_title_in_class_active.push((
        "alacritty".to_string(),
        vec![("zsh".to_string(), "#Zsh#".to_string())],
    ));

    config.format.client_dup = "{icon}{counter}".to_string();

    let renamer = Renamer::new(
        Config {
            cfg_path: None,
            config: config.clone(),
        },
        Args {
            verbose: false,
            debug: false,
            config: None,
            dump: false,
            migrate_config: false,
        },
    );

    let expected = [(workspace_type(1), "Zsh #Zsh# *Zsh*".to_string())]
        .into_iter()
        .collect();

    let actual = renamer.generate_workspaces_string(
        vec![workspace(
            1,
            vec![
                AppClient {
                    initial_class: "alacritty".to_string(),
                    class: "alacritty".to_string(),
                    title: "alacritty".to_string(),
                    initial_title: "zsh".to_string(),
                    is_active: false,
                    is_fullscreen: FullscreenMode::Normal,
                    matched_rule: renamer.parse_icon(
                        "alacritty".to_string(),
                        "alacritty".to_string(),
                        "zsh".to_string(),
                        "alacritty".to_string(),
                        false,
                        &config,
                    ),
                    is_dedup_inactive_fullscreen: false,
                },
                AppClient {
                    initial_class: "alacritty".to_string(),
                    class: "alacritty".to_string(),
                    title: "alacritty".to_string(),
                    initial_title: "zsh".to_string(),
                    is_active: true,
                    is_fullscreen: FullscreenMode::Normal,
                    matched_rule: renamer.parse_icon(
                        "alacritty".to_string(),
                        "alacritty".to_string(),
                        "zsh".to_string(),
                        "alacritty".to_string(),
                        true,
                        &config,
                    ),
                    is_dedup_inactive_fullscreen: false,
                },
                AppClient {
                    initial_class: "kitty".to_string(),
                    class: "kitty".to_string(),
                    title: "~".to_string(),
                    initial_title: "zsh".to_string(),
                    is_active: true,
                    is_fullscreen: FullscreenMode::Normal,
                    matched_rule: renamer.parse_icon(
                        "kitty".to_string(),
                        "kitty".to_string(),
                        "zsh".to_string(),
                        "~".to_string(),
                        true,
                        &config,
                    ),
                    is_dedup_inactive_fullscreen: false,
                },
            ],
        )],
        &config,
    );
    assert_eq!(as_map(&actual), expected);
}

#[test]
fn test_dedup_kitty_and_alacritty_if_two_regex() {
    let mut config = ConfigFile::default();
    config
        .class
        .push(("kitty".to_string(), "term".to_string()));

    config
        .class
        .push(("alacritty".to_string(), "term".to_string()));

    config.format.dedup = true;
    config.format.client_dup = "{icon}{counter}".to_string();

    let renamer = Renamer::new(
        Config {
            cfg_path: None,
            config: config.clone(),
        },
        Args {
            verbose: false,
            debug: false,
            config: None,
            dump: false,
            migrate_config: false,
        },
    );

    let expected = [(workspace_type(1), "term2 term3".to_string())]
        .into_iter()
        .collect();

    let actual = renamer.generate_workspaces_string(
        vec![workspace(
            1,
            vec![
                AppClient {
                    class: "kitty".to_string(),
                    title: "kitty".to_string(),
                    initial_class: "kitty".to_string(),
                    initial_title: "kitty".to_string(),
                    is_active: false,
                    is_fullscreen: FullscreenMode::Normal,
                    matched_rule: renamer.parse_icon(
                        "kitty".to_string(),
                        "kitty".to_string(),
                        "kitty".to_string(),
                        "kitty".to_string(),
                        false,
                        &config,
                    ),
                    is_dedup_inactive_fullscreen: false,
                },
                AppClient {
                    class: "kitty".to_string(),
                    initial_class: "kitty".to_string(),
                    title: "kitty".to_string(),
                    initial_title: "kitty".to_string(),
                    is_active: false,
                    is_fullscreen: FullscreenMode::Normal,
                    matched_rule: renamer.parse_icon(
                        "kitty".to_string(),
                        "kitty".to_string(),
                        "kitty".to_string(),
                        "kitty".to_string(),
                        false,
                        &config,
                    ),
                    is_dedup_inactive_fullscreen: false,
                },
                AppClient {
                    class: "alacritty".to_string(),
                    initial_class: "alacritty".to_string(),
                    title: "alacritty".to_string(),
                    initial_title: "alacritty".to_string(),
                    is_active: false,
                    is_fullscreen: FullscreenMode::Normal,
                    matched_rule: renamer.parse_icon(
                        "alacritty".to_string(),
                        "alacritty".to_string(),
                        "alacritty".to_string(),
                        "alacritty".to_string(),
                        false,
                        &config,
                    ),
                    is_dedup_inactive_fullscreen: false,
                },
                AppClient {
                    class: "alacritty".to_string(),
                    initial_class: "alacritty".to_string(),
                    title: "alacritty".to_string(),
                    initial_title: "alacritty".to_string(),
                    is_active: false,
                    is_fullscreen: FullscreenMode::Normal,
                    matched_rule: renamer.parse_icon(
                        "alacritty".to_string(),
                        "alacritty".to_string(),
                        "alacritty".to_string(),
                        "alacritty".to_string(),
                        false,
                        &config,
                    ),
                    is_dedup_inactive_fullscreen: false,
                },
                AppClient {
                    initial_class: "alacritty".to_string(),
                    class: "alacritty".to_string(),
                    title: "alacritty".to_string(),
                    initial_title: "alacritty".to_string(),
                    is_active: false,
                    is_fullscreen: FullscreenMode::Normal,
                    matched_rule: renamer.parse_icon(
                        "alacritty".to_string(),
                        "alacritty".to_string(),
                        "alacritty".to_string(),
                        "alacritty".to_string(),
                        false,
                        &config,
                    ),
                    is_dedup_inactive_fullscreen: false,
                },
            ],
        )],
        &config,
    );

    assert_eq!(as_map(&actual), expected);
}

#[test]
fn test_to_superscript() {
    let input = 1234567890;
    let expected = "¹²³⁴⁵⁶⁷⁸⁹⁰";
    let output = to_superscript(input);
    assert_eq!(expected, output);
}

#[test]
fn test_no_dedup_no_focus_no_fullscreen_one_workspace() {
    let mut config = ConfigFile::default();
    config
        .class
        .push(("kitty".to_string(), "term".to_string()));

    let renamer = Renamer::new(
        Config {
            cfg_path: None,
            config: config.clone(),
        },
        Args {
            verbose: false,
            debug: false,
            config: None,
            dump: false,
            migrate_config: false,
        },
    );

    let expected = [(workspace_type(1), "term term term term term".to_string())]
        .into_iter()
        .collect();

    let actual = renamer.generate_workspaces_string(
        vec![workspace(
            1,
            vec![
                AppClient {
                    initial_class: "kitty".to_string(),
                    class: "kitty".to_string(),
                    title: "kitty".to_string(),
                    initial_title: "kitty".to_string(),
                    is_active: false,
                    is_fullscreen: FullscreenMode::Normal,
                    matched_rule: renamer.parse_icon(
                        "kitty".to_string(),
                        "kitty".to_string(),
                        "kitty".to_string(),
                        "kitty".to_string(),
                        false,
                        &config,
                    ),
                    is_dedup_inactive_fullscreen: false,
                },
                AppClient {
                    class: "kitty".to_string(),
                    initial_class: "kitty".to_string(),
                    title: "kitty".to_string(),
                    initial_title: "kitty".to_string(),
                    is_active: false,
                    is_fullscreen: FullscreenMode::Normal,
                    matched_rule: renamer.parse_icon(
                        "kitty".to_string(),
                        "kitty".to_string(),
                        "kitty".to_string(),
                        "kitty".to_string(),
                        false,
                        &config,
                    ),
                    is_dedup_inactive_fullscreen: false,
                },
                AppClient {
                    class: "kitty".to_string(),
                    initial_class: "kitty".to_string(),
                    title: "kitty".to_string(),
                    initial_title: "kitty".to_string(),
                    is_active: false,
                    is_fullscreen: FullscreenMode::Normal,
                    matched_rule: renamer.parse_icon(
                        "kitty".to_string(),
                        "kitty".to_string(),
                        "kitty".to_string(),
                        "kitty".to_string(),
                        false,
                        &config,
                    ),
                    is_dedup_inactive_fullscreen: false,
                },
                AppClient {
                    initial_class: "kitty".to_string(),
                    class: "kitty".to_string(),
                    title: "kitty".to_string(),
                    initial_title: "kitty".to_string(),
                    is_active: false,
                    is_fullscreen: FullscreenMode::Normal,
                    matched_rule: renamer.parse_icon(
                        "kitty".to_string(),
                        "kitty".to_string(),
                        "kitty".to_string(),
                        "kitty".to_string(),
                        false,
                        &config,
                    ),
                    is_dedup_inactive_fullscreen: false,
                },
                AppClient {
                    class: "kitty".to_string(),
                    initial_class: "kitty".to_string(),
                    title: "kitty".to_string(),
                    initial_title: "kitty".to_string(),
                    is_active: false,
                    is_fullscreen: FullscreenMode::Normal,
                    matched_rule: renamer.parse_icon(
                        "kitty".to_string(),
                        "kitty".to_string(),
                        "kitty".to_string(),
                        "kitty".to_string(),
                        false,
                        &config,
                    ),
                    is_dedup_inactive_fullscreen: false,
                },
            ],
        )],
        &config,
    );

    assert_eq!(as_map(&actual), expected);
}

#[test]
fn test_no_dedup_focus_no_fullscreen_one_workspace_middle() {
    let mut config = ConfigFile::default();
    config
        .class
        .push(("kitty".to_string(), "term".to_string()));
    config.format.client_active = "*{icon}*".to_string();

    let renamer = Renamer::new(
        Config {
            cfg_path: None,
            config: config.clone(),
        },
        Args {
            verbose: false,
            debug: false,
            dump: false,
            config: None,
            migrate_config: false,
        },
    );

    let expected = [(workspace_type(1), "term term *term* term term".to_string())]
        .into_iter()
        .collect();

    let actual = renamer.generate_workspaces_string(
        vec![workspace(
            1,
            vec![
                AppClient {
                    initial_class: "kitty".to_string(),
                    class: "kitty".to_string(),
                    title: "kitty".to_string(),
                    initial_title: "kitty".to_string(),
                    is_active: false,
                    is_fullscreen: FullscreenMode::Normal,
                    matched_rule: renamer.parse_icon(
                        "kitty".to_string(),
                        "kitty".to_string(),
                        "kitty".to_string(),
                        "kitty".to_string(),
                        false,
                        &config,
                    ),
                    is_dedup_inactive_fullscreen: false,
                },
                AppClient {
                    initial_class: "kitty".to_string(),
                    class: "kitty".to_string(),
                    title: "kitty".to_string(),
                    initial_title: "kitty".to_string(),
                    is_active: false,
                    is_fullscreen: FullscreenMode::Normal,
                    matched_rule: renamer.parse_icon(
                        "kitty".to_string(),
                        "kitty".to_string(),
                        "kitty".to_string(),
                        "kitty".to_string(),
                        false,
                        &config,
                    ),
                    is_dedup_inactive_fullscreen: false,
                },
                AppClient {
                    class: "kitty".to_string(),
                    initial_class: "kitty".to_string(),
                    title: "kitty".to_string(),
                    initial_title: "kitty".to_string(),
                    is_active: true,
                    is_fullscreen: FullscreenMode::Normal,
                    matched_rule: renamer.parse_icon(
                        "kitty".to_string(),
                        "kitty".to_string(),
                        "kitty".to_string(),
                        "kitty".to_string(),
                        true,
                        &config,
                    ),
                    is_dedup_inactive_fullscreen: false,
                },
                AppClient {
                    class: "kitty".to_string(),
                    initial_class: "kitty".to_string(),
                    title: "kitty".to_string(),
                    initial_title: "kitty".to_string(),
                    is_active: false,
                    is_fullscreen: FullscreenMode::Normal,
                    matched_rule: renamer.parse_icon(
                        "kitty".to_string(),
                        "kitty".to_string(),
                        "kitty".to_string(),
                        "kitty".to_string(),
                        false,
                        &config,
                    ),
                    is_dedup_inactive_fullscreen: false,
                },
                AppClient {
                    class: "kitty".to_string(),
                    initial_class: "kitty".to_string(),
                    title: "kitty".to_string(),
                    initial_title: "kitty".to_string(),
                    is_active: false,
                    is_fullscreen: FullscreenMode::Normal,
                    matched_rule: renamer.parse_icon(
                        "kitty".to_string(),
                        "kitty".to_string(),
                        "kitty".to_string(),
                        "kitty".to_string(),
                        false,
                        &config,
                    ),
                    is_dedup_inactive_fullscreen: false,
                },
            ],
        )],
        &config,
    );

    assert_eq!(as_map(&actual), expected);
}

#[test]
fn test_no_dedup_no_focus_fullscreen_one_workspace_middle() {
    let mut config = ConfigFile::default();
    config
        .class
        .push(("kitty".to_string(), "term".to_string()));
    config.format.client_active = "*{icon}*".to_string();
    config.format.client_fullscreen = "[{icon}]".to_string();

    let renamer = Renamer::new(
        Config {
            cfg_path: None,
            config: config.clone(),
        },
        Args {
            verbose: false,
            debug: false,
            dump: false,
            migrate_config: false,
            config: None,
        },
    );

    let expected = [(workspace_type(1), "term term [term] term term".to_string())]
        .into_iter()
        .collect();

    let actual = renamer.generate_workspaces_string(
        vec![workspace(
            1,
            vec![
                AppClient {
                    initial_class: "kitty".to_string(),
                    class: "kitty".to_string(),
                    title: "kitty".to_string(),
                    initial_title: "kitty".to_string(),
                    is_active: false,
                    is_fullscreen: FullscreenMode::Normal,
                    matched_rule: renamer.parse_icon(
                        "kitty".to_string(),
                        "kitty".to_string(),
                        "kitty".to_string(),
                        "kitty".to_string(),
                        false,
                        &config,
                    ),
                    is_dedup_inactive_fullscreen: false,
                },
                AppClient {
                    class: "kitty".to_string(),
                    initial_class: "kitty".to_string(),
                    title: "kitty".to_string(),
                    initial_title: "kitty".to_string(),
                    is_active: false,
                    is_fullscreen: FullscreenMode::Normal,
                    matched_rule: renamer.parse_icon(
                        "kitty".to_string(),
                        "kitty".to_string(),
                        "kitty".to_string(),
                        "kitty".to_string(),
                        false,
                        &config,
                    ),
                    is_dedup_inactive_fullscreen: false,
                },
                AppClient {
                    class: "kitty".to_string(),
                    initial_class: "kitty".to_string(),
                    title: "kitty".to_string(),
                    initial_title: "kitty".to_string(),
                    is_active: false,
                    is_fullscreen: FullscreenMode::Fullscreen,
                    matched_rule: renamer.parse_icon(
                        "kitty".to_string(),
                        "kitty".to_string(),
                        "kitty".to_string(),
                        "kitty".to_string(),
                        false,
                        &config,
                    ),
                    is_dedup_inactive_fullscreen: false,
                },
                AppClient {
                    class: "kitty".to_string(),
                    initial_class: "kitty".to_string(),
                    title: "kitty".to_string(),
                    initial_title: "kitty".to_string(),
                    is_active: false,
                    is_fullscreen: FullscreenMode::Normal,
                    matched_rule: renamer.parse_icon(
                        "kitty".to_string(),
                        "kitty".to_string(),
                        "kitty".to_string(),
                        "kitty".to_string(),
                        false,
                        &config,
                    ),
                    is_dedup_inactive_fullscreen: false,
                },
                AppClient {
                    initial_class: "kitty".to_string(),
                    class: "kitty".to_string(),
                    title: "kitty".to_string(),
                    initial_title: "kitty".to_string(),
                    is_active: false,
                    is_fullscreen: FullscreenMode::Normal,
                    matched_rule: renamer.parse_icon(
                        "kitty".to_string(),
                        "kitty".to_string(),
                        "kitty".to_string(),
                        "kitty".to_string(),
                        false,
                        &config,
                    ),
                    is_dedup_inactive_fullscreen: false,
                },
            ],
        )],
        &config,
    );

    assert_eq!(as_map(&actual), expected);
}

#[test]
fn test_no_dedup_focus_fullscreen_one_workspace_middle() {
    let mut config = ConfigFile::default();
    config
        .class
        .push(("kitty".to_string(), "term".to_string()));
    config.format.client_active = "*{icon}*".to_string();
    config.format.client_fullscreen = "[{icon}]".to_string();

    let renamer = Renamer::new(
        Config {
            cfg_path: None,
            config: config.clone(),
        },
        Args {
            verbose: false,
            debug: false,
            dump: false,
            migrate_config: false,
            config: None,
        },
    );

    let expected = [(workspace_type(1), "term term [*term*] term term".to_string())]
        .into_iter()
        .collect();

    let actual = renamer.generate_workspaces_string(
        vec![workspace(
            1,
            vec![
                AppClient {
                    class: "kitty".to_string(),
                    initial_class: "kitty".to_string(),
                    title: "kitty".to_string(),
                    initial_title: "kitty".to_string(),
                    is_active: false,
                    is_fullscreen: FullscreenMode::Normal,
                    matched_rule: renamer.parse_icon(
                        "kitty".to_string(),
                        "kitty".to_string(),
                        "kitty".to_string(),
                        "kitty".to_string(),
                        false,
                        &config,
                    ),
                    is_dedup_inactive_fullscreen: false,
                },
                AppClient {
                    class: "kitty".to_string(),
                    initial_class: "kitty".to_string(),
                    title: "kitty".to_string(),
                    initial_title: "kitty".to_string(),
                    is_active: false,
                    is_fullscreen: FullscreenMode::Normal,
                    matched_rule: renamer.parse_icon(
                        "kitty".to_string(),
                        "kitty".to_string(),
                        "kitty".to_string(),
                        "kitty".to_string(),
                        false,
                        &config,
                    ),
                    is_dedup_inactive_fullscreen: false,
                },
                AppClient {
                    class: "kitty".to_string(),
                    initial_class: "kitty".to_string(),
                    title: "kitty".to_string(),
                    initial_title: "kitty".to_string(),
                    is_active: true,
                    is_fullscreen: FullscreenMode::Fullscreen,
                    matched_rule: renamer.parse_icon(
                        "kitty".to_string(),
                        "kitty".to_string(),
                        "kitty".to_string(),
                        "kitty".to_string(),
                        true,
                        &config,
                    ),
                    is_dedup_inactive_fullscreen: false,
                },
                AppClient {
                    class: "kitty".to_string(),
                    initial_class: "kitty".to_string(),
                    title: "kitty".to_string(),
                    initial_title: "kitty".to_string(),
                    is_active: false,
                    is_fullscreen: FullscreenMode::Normal,
                    matched_rule: renamer.parse_icon(
                        "kitty".to_string(),
                        "kitty".to_string(),
                        "kitty".to_string(),
                        "kitty".to_string(),
                        false,
                        &config,
                    ),
                    is_dedup_inactive_fullscreen: false,
                },
                AppClient {
                    class: "kitty".to_string(),
                    initial_class: "kitty".to_string(),
                    title: "kitty".to_string(),
                    initial_title: "kitty".to_string(),
                    is_active: false,
                    is_fullscreen: FullscreenMode::Normal,
                    matched_rule: renamer.parse_icon(
                        "kitty".to_string(),
                        "kitty".to_string(),
                        "kitty".to_string(),
                        "kitty".to_string(),
                        false,
                        &config,
                    ),
                    is_dedup_inactive_fullscreen: false,
                },
            ],
        )],
        &config,
    );

    assert_eq!(as_map(&actual), expected);
}

#[test]
fn test_dedup_no_focus_no_fullscreen_one_workspace() {
    let mut config = ConfigFile::default();
    config
        .class
        .push(("kitty".to_string(), "term".to_string()));
    config.format.dedup = true;
    config.format.client_dup = "{icon}{counter}".to_string();

    let renamer = Renamer::new(
        Config {
            cfg_path: None,
            config: config.clone(),
        },
        Args {
            verbose: false,
            debug: false,
            dump: false,
            migrate_config: false,
            config: None,
        },
    );

    let expected = [(workspace_type(1), "term5".to_string())].into_iter().collect();

    let actual = renamer.generate_workspaces_string(
        vec![workspace(
            1,
            vec![
                AppClient {
                    initial_class: "kitty".to_string(),
                    class: "kitty".to_string(),
                    title: "kitty".to_string(),
                    initial_title: "kitty".to_string(),
                    is_active: false,
                    is_fullscreen: FullscreenMode::Normal,
                    matched_rule: Inactive(Class("kitty".to_string(), "term".to_string())),
                    is_dedup_inactive_fullscreen: false,
                },
                AppClient {
                    initial_class: "kitty".to_string(),
                    class: "kitty".to_string(),
                    title: "kitty".to_string(),
                    initial_title: "kitty".to_string(),
                    is_active: false,
                    is_fullscreen: FullscreenMode::Normal,
                    matched_rule: Inactive(Class("kitty".to_string(), "term".to_string())),
                    is_dedup_inactive_fullscreen: false,
                },
                AppClient {
                    initial_class: "kitty".to_string(),
                    class: "kitty".to_string(),
                    title: "kitty".to_string(),
                    initial_title: "kitty".to_string(),
                    is_active: false,
                    is_fullscreen: FullscreenMode::Normal,
                    matched_rule: Inactive(Class("kitty".to_string(), "term".to_string())),
                    is_dedup_inactive_fullscreen: false,
                },
                AppClient {
                    initial_class: "kitty".to_string(),
                    class: "kitty".to_string(),
                    title: "kitty".to_string(),
                    initial_title: "kitty".to_string(),
                    is_active: false,
                    is_fullscreen: FullscreenMode::Normal,
                    matched_rule: Inactive(Class("kitty".to_string(), "term".to_string())),
                    is_dedup_inactive_fullscreen: false,
                },
                AppClient {
                    initial_class: "kitty".to_string(),
                    class: "kitty".to_string(),
                    title: "kitty".to_string(),
                    initial_title: "kitty".to_string(),
                    is_active: false,
                    is_fullscreen: FullscreenMode::Normal,
                    matched_rule: Inactive(Class("kitty".to_string(), "term".to_string())),
                    is_dedup_inactive_fullscreen: false,
                },
            ],
        )],
        &config,
    );

    assert_eq!(as_map(&actual), expected);
}

#[test]
fn test_dedup_focus_no_fullscreen_one_workspace_middle() {
    let mut config = ConfigFile::default();
    config
        .class
        .push(("kitty".to_string(), "term".to_string()));

    config.format.dedup = true;
    config.format.client_dup = "{icon}{counter}".to_string();
    config.format.client_active = "*{icon}*".to_string();
    config.format.client_dup_active = "{icon}{counter_unfocused}".to_string();

    let renamer = Renamer::new(
        Config {
            cfg_path: None,
            config: config.clone(),
        },
        Args {
            verbose: false,
            debug: false,
            dump: false,
            migrate_config: false,
            config: None,
        },
    );

    let expected = [(workspace_type(1), "term4 *term*".to_string())].into_iter().collect();

    let actual = renamer.generate_workspaces_string(
        vec![workspace(
            1,
            vec![
                AppClient {
                    class: "kitty".to_string(),
                    initial_class: "kitty".to_string(),
                    title: "kitty".to_string(),
                    initial_title: "kitty".to_string(),
                    is_active: false,
                    is_fullscreen: FullscreenMode::Normal,
                    matched_rule: renamer.parse_icon(
                        "kitty".to_string(),
                        "kitty".to_string(),
                        "kitty".to_string(),
                        "kitty".to_string(),
                        false,
                        &config,
                    ),
                    is_dedup_inactive_fullscreen: false,
                },
                AppClient {
                    class: "kitty".to_string(),
                    initial_class: "kitty".to_string(),
                    title: "kitty".to_string(),
                    initial_title: "kitty".to_string(),
                    is_active: false,
                    is_fullscreen: FullscreenMode::Normal,
                    matched_rule: renamer.parse_icon(
                        "kitty".to_string(),
                        "kitty".to_string(),
                        "kitty".to_string(),
                        "kitty".to_string(),
                        false,
                        &config,
                    ),
                    is_dedup_inactive_fullscreen: false,
                },
                AppClient {
                    initial_class: "kitty".to_string(),
                    class: "kitty".to_string(),
                    title: "kitty".to_string(),
                    initial_title: "kitty".to_string(),
                    is_active: true,
                    is_fullscreen: FullscreenMode::Normal,
                    matched_rule: renamer.parse_icon(
                        "kitty".to_string(),
                        "kitty".to_string(),
                        "kitty".to_string(),
                        "kitty".to_string(),
                        true,
                        &config,
                    ),
                    is_dedup_inactive_fullscreen: false,
                },
                AppClient {
                    initial_class: "kitty".to_string(),
                    class: "kitty".to_string(),
                    title: "kitty".to_string(),
                    initial_title: "kitty".to_string(),
                    is_active: false,
                    is_fullscreen: FullscreenMode::Normal,
                    matched_rule: renamer.parse_icon(
                        "kitty".to_string(),
                        "kitty".to_string(),
                        "kitty".to_string(),
                        "kitty".to_string(),
                        false,
                        &config,
                    ),
                    is_dedup_inactive_fullscreen: false,
                },
                AppClient {
                    class: "kitty".to_string(),
                    initial_class: "kitty".to_string(),
                    title: "kitty".to_string(),
                    initial_title: "kitty".to_string(),
                    is_active: false,
                    is_fullscreen: FullscreenMode::Normal,
                    matched_rule: renamer.parse_icon(
                        "kitty".to_string(),
                        "kitty".to_string(),
                        "kitty".to_string(),
                        "kitty".to_string(),
                        false,
                        &config,
                    ),
                    is_dedup_inactive_fullscreen: false,
                },
            ],
        )],
        &config,
    );

    assert_eq!(as_map(&actual), expected);
}

#[test]
fn test_dedup_no_focus_fullscreen_one_workspace_middle() {
    let mut config = ConfigFile::default();
    config
        .class
        .push(("kitty".to_string(), "term".to_string()));

    config.format.dedup = true;
    config.format.client_dup = "{icon}{counter}".to_string();
    config.format.client_dup_fullscreen =
        "[{icon}]{delim}{icon}{counter_unfocused_sup}".to_string();

    let renamer = Renamer::new(
        Config {
            cfg_path: None,
            config: config.clone(),
        },
        Args {
            verbose: false,
            debug: false,
            config: None,
            dump: false,
            migrate_config: false,
        },
    );

    let expected = [(workspace_type(1), "term4 [term]".to_string())].into_iter().collect();

    let actual = renamer.generate_workspaces_string(
        vec![workspace(
            1,
            vec![
                AppClient {
                    class: "kitty".to_string(),
                    initial_class: "kitty".to_string(),
                    title: "kitty".to_string(),
                    initial_title: "kitty".to_string(),
                    is_active: false,
                    is_fullscreen: FullscreenMode::Normal,
                    matched_rule: renamer.parse_icon(
                        "kitty".to_string(),
                        "kitty".to_string(),
                        "kitty".to_string(),
                        "kitty".to_string(),
                        false,
                        &config,
                    ),
                    is_dedup_inactive_fullscreen: false,
                },
                AppClient {
                    class: "kitty".to_string(),
                    initial_class: "kitty".to_string(),
                    title: "kitty".to_string(),
                    initial_title: "kitty".to_string(),
                    is_active: false,
                    is_fullscreen: FullscreenMode::Normal,
                    matched_rule: renamer.parse_icon(
                        "kitty".to_string(),
                        "kitty".to_string(),
                        "kitty".to_string(),
                        "kitty".to_string(),
                        false,
                        &config,
                    ),
                    is_dedup_inactive_fullscreen: false,
                },
                AppClient {
                    class: "kitty".to_string(),
                    initial_class: "kitty".to_string(),
                    title: "kitty".to_string(),
                    initial_title: "kitty".to_string(),
                    is_active: false,
                    is_fullscreen: FullscreenMode::Fullscreen,
                    matched_rule: renamer.parse_icon(
                        "kitty".to_string(),
                        "kitty".to_string(),
                        "kitty".to_string(),
                        "kitty".to_string(),
                        false,
                        &config,
                    ),
                    is_dedup_inactive_fullscreen: false,
                },
                AppClient {
                    class: "kitty".to_string(),
                    initial_class: "kitty".to_string(),
                    title: "kitty".to_string(),
                    initial_title: "kitty".to_string(),
                    is_active: false,
                    is_fullscreen: FullscreenMode::Normal,
                    matched_rule: renamer.parse_icon(
                        "kitty".to_string(),
                        "kitty".to_string(),
                        "kitty".to_string(),
                        "kitty".to_string(),
                        false,
                        &config,
                    ),
                    is_dedup_inactive_fullscreen: false,
                },
                AppClient {
                    class: "kitty".to_string(),
                    initial_class: "kitty".to_string(),
                    title: "kitty".to_string(),
                    initial_title: "kitty".to_string(),
                    is_active: false,
                    is_fullscreen: FullscreenMode::Normal,
                    matched_rule: renamer.parse_icon(
                        "kitty".to_string(),
                        "kitty".to_string(),
                        "kitty".to_string(),
                        "kitty".to_string(),
                        false,
                        &config,
                    ),
                    is_dedup_inactive_fullscreen: false,
                },
            ],
        )],
        &config,
    );

    assert_eq!(as_map(&actual), expected);
}

#[test]
fn test_dedup_focus_fullscreen_one_workspace_middle() {
    let mut config = ConfigFile::default();
    config
        .class
        .push(("kitty".to_string(), "term".to_string()));
    config.format.dedup = true;
    config.format.client = "{icon}".to_string();
    config.format.client_active = "*{icon}*".to_string();
    config.format.client_fullscreen = "[{icon}]".to_string();
    config.format.client_dup = "{icon}{counter}".to_string();
    config.format.client_dup_fullscreen =
        "[{icon}]{delim}{icon}{counter_unfocused}".to_string();
    config.format.client_dup_active = "*{icon}*{delim}{icon}{counter_unfocused}".to_string();

    let renamer = Renamer::new(
        Config {
            cfg_path: None,
            config: config.clone(),
        },
        Args {
            verbose: false,
            debug: false,
            config: None,
            dump: false,
            migrate_config: false,
        },
    );

    let expected = [(workspace_type(1), "term4 [*term*]".to_string())].into_iter().collect();

    let actual = renamer.generate_workspaces_string(
        vec![workspace(
            1,
            vec![
                AppClient {
                    class: "kitty".to_string(),
                    initial_class: "kitty".to_string(),
                    title: "kitty".to_string(),
                    initial_title: "kitty".to_string(),
                    is_active: false,
                    is_fullscreen: FullscreenMode::Normal,
                    matched_rule: renamer.parse_icon(
                        "kitty".to_string(),
                        "kitty".to_string(),
                        "kitty".to_string(),
                        "kitty".to_string(),
                        false,
                        &config,
                    ),
                    is_dedup_inactive_fullscreen: false,
                },
                AppClient {
                    class: "kitty".to_string(),
                    initial_class: "kitty".to_string(),
                    title: "kitty".to_string(),
                    initial_title: "kitty".to_string(),
                    is_active: false,
                    is_fullscreen: FullscreenMode::Normal,
                    matched_rule: renamer.parse_icon(
                        "kitty".to_string(),
                        "kitty".to_string(),
                        "kitty".to_string(),
                        "kitty".to_string(),
                        false,
                        &config,
                    ),
                    is_dedup_inactive_fullscreen: false,
                },
                AppClient {
                    initial_class: "kitty".to_string(),
                    class: "kitty".to_string(),
                    title: "kitty".to_string(),
                    initial_title: "kitty".to_string(),
                    is_active: true,
                    is_fullscreen: FullscreenMode::Fullscreen,
                    matched_rule: renamer.parse_icon(
                        "kitty".to_string(),
                        "kitty".to_string(),
                        "kitty".to_string(),
                        "kitty".to_string(),
                        true,
                        &config,
                    ),
                    is_dedup_inactive_fullscreen: false,
                },
                AppClient {
                    class: "kitty".to_string(),
                    initial_class: "kitty".to_string(),
                    title: "kitty".to_string(),
                    initial_title: "kitty".to_string(),
                    is_active: false,
                    is_fullscreen: FullscreenMode::Normal,
                    matched_rule: renamer.parse_icon(
                        "kitty".to_string(),
                        "kitty".to_string(),
                        "kitty".to_string(),
                        "kitty".to_string(),
                        false,
                        &config,
                    ),
                    is_dedup_inactive_fullscreen: false,
                },
                AppClient {
                    initial_class: "kitty".to_string(),
                    class: "kitty".to_string(),
                    title: "kitty".to_string(),
                    initial_title: "kitty".to_string(),
                    is_active: false,
                    is_fullscreen: FullscreenMode::Normal,
                    matched_rule: renamer.parse_icon(
                        "kitty".to_string(),
                        "kitty".to_string(),
                        "kitty".to_string(),
                        "kitty".to_string(),
                        false,
                        &config,
                    ),
                    is_dedup_inactive_fullscreen: false,
                },
            ],
        )],
        &config,
    );

    assert_eq!(as_map(&actual), expected);
}

#[test]
fn test_default_active_icon() {
    let mut config = ConfigFile::default();
    config
        .class
        .push(("kitty".to_string(), "k".to_string()));
    config
        .class
        .push(("alacritty".to_string(), "a".to_string()));
    config
        .class
        .push(("DEFAULT".to_string(), "d".to_string()));

    config
        .class_active
        .push(("kitty".to_string(), "KKK".to_string()));
    config
        .class_active
        .push(("DEFAULT".to_string(), "DDD".to_string()));

    config.format.client_active = "*{icon}*".to_string();

    let renamer = Renamer::new(
        Config {
            cfg_path: None,
            config: config.clone(),
        },
        Args {
            verbose: false,
            debug: false,
            config: None,
            dump: false,
            migrate_config: false,
        },
    );

    let expected = [(workspace_type(1), "KKK DDD DDD".to_string())].into_iter().collect();

    let actual = renamer.generate_workspaces_string(
        vec![workspace(
            1,
            vec![
                AppClient {
                    initial_class: "kitty".to_string(),
                    class: "kitty".to_string(),
                    title: "kitty".to_string(),
                    initial_title: "kitty".to_string(),
                    is_active: true,
                    is_fullscreen: FullscreenMode::Normal,
                    matched_rule: renamer.parse_icon(
                        "kitty".to_string(),
                        "kitty".to_string(),
                        "kitty".to_string(),
                        "kitty".to_string(),
                        true,
                        &config,
                    ),
                    is_dedup_inactive_fullscreen: false,
                },
                AppClient {
                    class: "alacritty".to_string(),
                    initial_class: "alacritty".to_string(),
                    title: "alacritty".to_string(),
                    initial_title: "alacritty".to_string(),
                    is_active: true,
                    is_fullscreen: FullscreenMode::Normal,
                    matched_rule: renamer.parse_icon(
                        "alacritty".to_string(),
                        "alacritty".to_string(),
                        "alacritty".to_string(),
                        "alacritty".to_string(),
                        true,
                        &config,
                    ),
                    is_dedup_inactive_fullscreen: false,
                },
                AppClient {
                    class: "qute".to_string(),
                    initial_class: "qute".to_string(),
                    title: "qute".to_string(),
                    initial_title: "qute".to_string(),
                    is_active: true,
                    is_fullscreen: FullscreenMode::Normal,
                    matched_rule: renamer.parse_icon(
                        "qute".to_string(),
                        "qute".to_string(),
                        "qute".to_string(),
                        "qute".to_string(),
                        true,
                        &config,
                    ),
                    is_dedup_inactive_fullscreen: false,
                },
            ],
        )],
        &config,
    );

    assert_eq!(as_map(&actual), expected);
}

#[test]
fn test_no_class_but_title_icon() {
    let mut config = ConfigFile::default();
    config.title_in_class.push((
        "^$".to_string(),
        vec![("(?i)spotify".to_string(), "spotify".to_string())],
    ));

    let renamer = Renamer::new(
        Config {
            cfg_path: None,
            config: config.clone(),
        },
        Args {
            verbose: false,
            debug: false,
            config: None,
            dump: false,
            migrate_config: false,
        },
    );

    let expected = [(workspace_type(1), "spotify".to_string())].into_iter().collect();

    let actual = renamer.generate_workspaces_string(
        vec![workspace(
            1,
            vec![AppClient {
                initial_class: "".to_string(),
                class: "".to_string(),
                title: "spotify".to_string(),
                initial_title: "spotify".to_string(),
                is_active: false,
                is_fullscreen: FullscreenMode::Normal,
                matched_rule: renamer.parse_icon(
                    "".to_string(),
                    "".to_string(),
                    "spotify".to_string(),
                    "spotify".to_string(),
                    false,
                    &config,
                ),
                is_dedup_inactive_fullscreen: false,
            }],
        )],
        &config,
    );

    assert_eq!(as_map(&actual), expected);
}

#[test]
fn test_class_with_exclam_mark() {
    let mut config = ConfigFile::default();

    config
        .class
        .push(("osu!".to_string(), "osu".to_string()));

    let renamer = Renamer::new(
        Config {
            cfg_path: None,
            config: config.clone(),
        },
        Args {
            verbose: false,
            debug: false,
            config: None,
            dump: false,
            migrate_config: false,
        },
    );

    let expected = [(workspace_type(1), "osu".to_string())].into_iter().collect();

    let actual = renamer.generate_workspaces_string(
        vec![workspace(
            1,
            vec![AppClient {
                initial_class: "osu!".to_string(),
                class: "osu!".to_string(),
                title: "osu!".to_string(),
                initial_title: "osu!".to_string(),
                is_active: false,
                is_fullscreen: FullscreenMode::Normal,
                matched_rule: renamer.parse_icon(
                    "osu!".to_string(),
                    "osu!".to_string(),
                    "osu!".to_string(),
                    "osu!".to_string(),
                    false,
                    &config,
                ),
                is_dedup_inactive_fullscreen: false,
            }],
        )],
        &config,
    );

    assert_eq!(as_map(&actual), expected);
}

#[test]
fn test_no_default_class_active_fallback_to_formatted_default_class_inactive() {
    // Test inactive default configuration
    let mut config = ConfigFile::default();

    // Find and replace the DEFAULT entry
    if let Some(idx) = config
        .class
        .iter()
        .position(|(regex, _)| regex.as_str() == "DEFAULT")
    {
        config.class[idx] = (
            "DEFAULT".to_string(),
            "default inactive".to_string(),
        );
    }

    let renamer = Renamer::new(
        Config {
            cfg_path: None,
            config: config.clone(),
        },
        Args {
            verbose: false,
            debug: false,
            config: None,
            dump: false,
            migrate_config: false,
        },
    );

    let expected = [(workspace_type(1), "*default inactive* default inactive".to_string())]
        .into_iter()
        .collect();

    let actual = renamer.generate_workspaces_string(
        vec![workspace(
            1,
            vec![
                AppClient {
                    initial_class: "fake-app-unknown".to_string(),
                    class: "fake-app-unknown".to_string(),
                    title: "~".to_string(),
                    initial_title: "zsh".to_string(),
                    is_active: true,
                    is_fullscreen: FullscreenMode::Normal,
                    matched_rule: renamer.parse_icon(
                        "fake-app-unknown".to_string(),
                        "fake-app-unknown".to_string(),
                        "zsh".to_string(),
                        "~".to_string(),
                        true,
                        &config,
                    ),
                    is_dedup_inactive_fullscreen: false,
                },
                AppClient {
                    initial_class: "fake-app-unknown".to_string(),
                    class: "fake-app-unknown".to_string(),
                    title: "~".to_string(),
                    initial_title: "zsh".to_string(),
                    is_active: false,
                    is_fullscreen: FullscreenMode::Normal,
                    matched_rule: renamer.parse_icon(
                        "fake-app-unknown".to_string(),
                        "fake-app-unknown".to_string(),
                        "zsh".to_string(),
                        "~".to_string(),
                        true,
                        &config,
                    ),
                    is_dedup_inactive_fullscreen: false,
                },
            ],
        )],
        &config,
    );

    assert_eq!(as_map(&actual), expected);
}

#[test]
fn test_no_default_class_active_fallback_to_class_default() {
    // Test active default configuration
    let mut config = ConfigFile::default();

    config
        .class_active
        .push(("DEFAULT".to_string(), "default active".to_string()));

    let renamer = Renamer::new(
        Config {
            cfg_path: None,
            config: config.clone(),
        },
        Args {
            verbose: false,
            debug: false,
            config: None,
            dump: false,
            migrate_config: false,
        },
    );

    let expected = [(workspace_type(1), "default active".to_string())].into_iter().collect();

    let actual = renamer.generate_workspaces_string(
        vec![workspace(
            1,
            vec![AppClient {
                initial_class: "kitty".to_string(),
                class: "kitty".to_string(),
                title: "~".to_string(),
                initial_title: "zsh".to_string(),
                is_active: true,
                is_fullscreen: FullscreenMode::Normal,
                matched_rule: renamer.parse_icon(
                    "kitty".to_string(),
                    "kitty".to_string(),
                    "zsh".to_string(),
                    "~".to_string(),
                    true,
                    &config,
                ),
                is_dedup_inactive_fullscreen: false,
            }],
        )],
        &config,
    );

    assert_eq!(as_map(&actual), expected);

    // Test no active default configuration
    let config = ConfigFile::default();

    let renamer = Renamer::new(
        Config {
            cfg_path: None,
            config: config.clone(),
        },
        Args {
            verbose: false,
            debug: false,
            config: None,
            dump: false,
            migrate_config: false,
        },
    );

    let actual = renamer.generate_workspaces_string(
        vec![workspace(
            1,
            vec![AppClient {
                initial_class: "kitty".to_string(),
                class: "kitty".to_string(),
                initial_title: "zsh".to_string(),
                title: "~".to_string(),
                is_active: true,
                is_fullscreen: FullscreenMode::Normal,
                matched_rule: renamer.parse_icon(
                    "kitty".to_string(),
                    "kitty".to_string(),
                    "zsh".to_string(),
                    "~".to_string(),
                    true,
                    &config,
                ),
                is_dedup_inactive_fullscreen: false,
            }],
        )],
        &config,
    );

    // When no active default is configured, the inactive default is used
    // and run through the same formatter as a normal inactive client.
    let expected = [(workspace_type(1), "*\u{f059} kitty*".to_string())].into_iter().collect();

    assert_eq!(as_map(&actual), expected);
}

#[test]
fn test_initial_title_in_initial_class_combos() {
    let mut config = ConfigFile::default();

    config
        .class
        .push(("kitty".to_string(), "term0".to_string()));

    config.title_in_class.push((
        "kitty".to_string(),
        vec![("~".to_string(), "term1".to_string())],
    ));

    config.title_in_initial_class.push((
        "kitty".to_string(),
        vec![("~".to_string(), "term2".to_string())],
    ));

    let renamer = Renamer::new(
        Config {
            cfg_path: None,
            config: config.clone(),
        },
        Args {
            verbose: false,
            debug: false,
            config: None,
            dump: false,
            migrate_config: false,
        },
    );

    let expected = [(workspace_type(1), "term2".to_string())].into_iter().collect();

    let actual = renamer.generate_workspaces_string(
        vec![workspace(
            1,
            vec![AppClient {
                initial_class: "kitty".to_string(),
                class: "kitty".to_string(),
                title: "~".to_string(),
                initial_title: "zsh".to_string(),
                is_active: false,
                is_fullscreen: FullscreenMode::Normal,
                is_dedup_inactive_fullscreen: false,
                matched_rule: renamer.parse_icon(
                    "kitty".to_string(),
                    "kitty".to_string(),
                    "zsh".to_string(),
                    "~".to_string(),
                    false,
                    &config,
                ),
            }],
        )],
        &config,
    );

    assert_eq!(as_map(&actual), expected);

    config.initial_title_in_class.push((
        "kitty".to_string(),
        vec![("(?i)zsh".to_string(), "term3".to_string())],
    ));

    let renamer = Renamer::new(
        Config {
            cfg_path: None,
            config: config.clone(),
        },
        Args {
            verbose: false,
            debug: false,
            config: None,
            dump: false,
            migrate_config: false,
        },
    );

    let actual = renamer.generate_workspaces_string(
        vec![workspace(
            1,
            vec![AppClient {
                initial_class: "kitty".to_string(),
                class: "kitty".to_string(),
                initial_title: "zsh".to_string(),
                title: "~".to_string(),
                is_active: false,
                is_fullscreen: FullscreenMode::Normal,
                matched_rule: renamer.parse_icon(
                    "kitty".to_string(),
                    "kitty".to_string(),
                    "zsh".to_string(),
                    "~".to_string(),
                    false,
                    &config,
                ),
                is_dedup_inactive_fullscreen: false,
            }],
        )],
        &config,
    );

    let expected = [(workspace_type(1), "term3".to_string())].into_iter().collect();

    assert_eq!(as_map(&actual), expected);

    config.initial_title_in_initial_class.push((
        "kitty".to_string(),
        vec![("(?i)zsh".to_string(), "term4".to_string())],
    ));

    let renamer = Renamer::new(
        Config {
            cfg_path: None,
            config: config.clone(),
        },
        Args {
            verbose: false,
            debug: false,
            config: None,
            dump: false,
            migrate_config: false,
        },
    );

    let actual = renamer.generate_workspaces_string(
        vec![workspace(
            1,
            vec![AppClient {
                initial_class: "kitty".to_string(),
                class: "kitty".to_string(),
                initial_title: "zsh".to_string(),
                title: "~".to_string(),
                is_active: false,
                is_fullscreen: FullscreenMode::Normal,
                matched_rule: renamer.parse_icon(
                    "kitty".to_string(),
                    "kitty".to_string(),
                    "zsh".to_string(),
                    "~".to_string(),
                    false,
                    &config,
                ),
                is_dedup_inactive_fullscreen: false,
            }],
        )],
        &config,
    );

    let expected = [(workspace_type(1), "term4".to_string())].into_iter().collect();

    assert_eq!(as_map(&actual), expected);
}

#[test]
fn test_workspace_cache() {
    let mut config = ConfigFile::default();
    config
        .class
        .push(("kitty".to_string(), "term".to_string()));

    let mut renamer = Renamer::new(
        Config {
            cfg_path: None,
            config: config.clone(),
        },
        Args {
            verbose: false,
            debug: false,
            config: None,
            dump: false,
            migrate_config: false,
        },
    );

    // Initial state - cache should be empty
    assert_eq!(renamer.workspace_strings_cache.len(), 0);

    let mut app_workspaces = vec![
        workspace(
            1,
            vec![AppClient {
                initial_class: "kitty".to_string(),
                class: "kitty".to_string(),
                title: "term1".to_string(),
                initial_title: "term1".to_string(),
                is_active: false,
                is_fullscreen: FullscreenMode::Normal,
                matched_rule: renamer.parse_icon(
                    "kitty".to_string(),
                    "kitty".to_string(),
                    "term1".to_string(),
                    "term1".to_string(),
                    false,
                    &config,
                ),
                is_dedup_inactive_fullscreen: false,
            }],
        ),
        workspace(
            2,
            vec![AppClient {
                initial_class: "kitty".to_string(),
                class: "kitty".to_string(),
                title: "term2".to_string(),
                initial_title: "term2".to_string(),
                is_active: false,
                is_fullscreen: FullscreenMode::Normal,
                matched_rule: renamer.parse_icon(
                    "kitty".to_string(),
                    "kitty".to_string(),
                    "term2".to_string(),
                    "term2".to_string(),
                    false,
                    &config,
                ),
                is_dedup_inactive_fullscreen: false,
            }],
        ),
    ];

    let strings = renamer.generate_workspaces_string(app_workspaces.clone(), &config);
    // Update cache and rename workspaces
    let altered_strings = renamer.get_altered_workspaces(&strings);
    assert_eq!(as_map(&strings), as_map(&altered_strings));

    let workspace_ids: Vec<_> = app_workspaces.iter().map(|w| w.id.clone()).collect();
    renamer
        .update_cache(&altered_strings, &workspace_ids);
    // Cache should now contain entries for all workspaces
    {
        let cache = &renamer.workspace_strings_cache;
        assert_eq!(cache.len(), app_workspaces.len());
        assert_eq!(cache.get(&workspace_type(1)), strings.get(&workspace_type(1)));
        assert_eq!(cache.get(&workspace_type(2)), strings.get(&workspace_type(2)));
    }

    // Generate same workspaces again - nothing should be altered
    let altered_strings2 = renamer.get_altered_workspaces(&strings);
    assert!(altered_strings2.is_empty());

    app_workspaces.push(workspace(
        3,
        vec![AppClient {
            initial_class: "kitty".to_string(),
            class: "kitty".to_string(),
            title: "term3".to_string(),
            initial_title: "term3".to_string(),
            is_active: false,
            is_fullscreen: FullscreenMode::Normal,
            matched_rule: renamer.parse_icon(
                "kitty".to_string(),
                "kitty".to_string(),
                "term3".to_string(),
                "term3".to_string(),
                false,
                &config,
            ),
            is_dedup_inactive_fullscreen: false,
        }],
    ));

    let strings3 = renamer.generate_workspaces_string(app_workspaces.clone(), &config);
    let altered_strings3 = renamer.get_altered_workspaces(&strings3);

    // Only the new workspace should be altered
    assert_eq!(altered_strings3.len(), 1);
    assert_eq!(
        altered_strings3.get(&workspace_type(3)),
        strings3.get(&workspace_type(3))
    );

    let workspace_ids: Vec<_> = app_workspaces.iter().map(|w| w.id.clone()).collect();
    renamer
        .update_cache(&altered_strings3, &workspace_ids);

    // Generate different workspace set - should update cache
    let app_workspaces2 = vec![workspace(
        4,
        vec![AppClient {
            initial_class: "kitty".to_string(),
            class: "kitty".to_string(),
            title: "term3".to_string(), // Different title
            initial_title: "term3".to_string(),
            is_active: false,
            is_fullscreen: FullscreenMode::Normal,
            matched_rule: renamer.parse_icon(
                "kitty".to_string(),
                "kitty".to_string(),
                "term3".to_string(),
                "term3".to_string(),
                false,
                &config,
            ),
            is_dedup_inactive_fullscreen: false,
        }],
    )];

    let strings3 = renamer.generate_workspaces_string(app_workspaces2.clone(), &config);
    let altered_strings3 = renamer.get_altered_workspaces(&strings3);
    assert_eq!(as_map(&strings3), as_map(&altered_strings3));

    let workspace_ids: Vec<_> = app_workspaces2.iter().map(|w| w.id.clone()).collect();
    renamer
        .update_cache(&altered_strings3, &workspace_ids);

    // Cache should be updated - workspace 2 removed, workspace 1 updated
    {
        let cache = &renamer.workspace_strings_cache;
        assert_eq!(cache.len(), 1);
        assert_eq!(
            cache.get(&workspace_type(1)),
            strings3.get(&workspace_type(1))
        );
        assert_eq!(cache.get(&workspace_type(2)), None);
    }

    // Test cache reset
    renamer.reset_workspaces(config.clone());
    assert_eq!(renamer.workspace_strings_cache.len(), 0);
}

#[test]
fn test_regex_capture_support() {
    let mut config = ConfigFile::default();

    config.title_in_class.push((
        "(?i)foot".to_string(),
        vec![(
            "emerge: (.+?/.+?)-.*".to_string(),
            "test {match1}".to_string(),
        )],
    ));
    config.title_in_class.push((
        "(?i)foot".to_string(),
        vec![(
            "pacman: (.+?/.+?)-(.*)".to_string(),
            "test {match1} test2 {match2}".to_string(),
        )],
    ));
    config.title_in_class_active.push((
        "(?i)foot".to_string(),
        vec![(
            "pacman: (.+?/.+?)-(.*)".to_string(),
            "*#test{match1}#between#{match2}endtest#*".to_string(),
        )],
    ));

    config.format.client_active = "*{icon}*".to_string();

    let renamer = Renamer::new(
        Config {
            cfg_path: None,
            config: config.clone(),
        },
        Args {
            verbose: false,
            debug: false,
            config: None,
            dump: false,
            migrate_config: false,
        },
    );

    let mut expected = [(workspace_type(1), "test (13 of 20) dev-lang/rust".to_string())]
        .into_iter()
        .collect();

    let mut actual = renamer.generate_workspaces_string(
        vec![workspace(1, vec![AppClient {
                initial_class: "foot".to_string(),
                class: "foot".to_string(),
                initial_title: "zsh".to_string(),
                title: "emerge: (13 of 20) dev-lang/rust-1.69.0-r1 Compile:".to_string(),
                is_active: false,
                is_fullscreen: FullscreenMode::Normal,
                matched_rule: renamer.parse_icon(
                    "foot".to_string(),
                    "foot".to_string(),
                    "zsh".to_string(),
                    "emerge: (13 of 20) dev-lang/rust-1.69.0-r1 Compile:".to_string(),
                    false,
                    &config,
                ),
                is_dedup_inactive_fullscreen: false,
            }])],
        &config,
    );

    assert_eq!(as_map(&actual), expected);

    expected = [(
        workspace_type(1),
        "*#test(14 of 20) dev-lang/rust#between#1.69.0-r1 Compile:endtest#*".to_string(),
    )]
    .into_iter()
    .collect();

    actual = renamer.generate_workspaces_string(
        vec![workspace(1, vec![AppClient {
                initial_class: "foot".to_string(),
                class: "foot".to_string(),
                initial_title: "zsh".to_string(),
                title: "pacman: (14 of 20) dev-lang/rust-1.69.0-r1 Compile:".to_string(),
                is_active: true,
                is_fullscreen: FullscreenMode::Normal,
                matched_rule: renamer.parse_icon(
                    "foot".to_string(),
                    "foot".to_string(),
                    "zsh".to_string(),
                    "pacman: (14 of 20) dev-lang/rust-1.69.0-r1 Compile:".to_string(),
                    true,
                    &config,
                ),
                is_dedup_inactive_fullscreen: false,
            }])],
        &config,
    );

    assert_eq!(as_map(&actual), expected);
}

#[test]
fn test_workspaces_name_config() {
    let mut config = ConfigFile::default();

    config
        .workspaces_name
        .push(("0".to_string(), "zero".to_string()));

    config
        .workspaces_name
        .push(("1".to_string(), "one".to_string()));

    let expected = "zero".to_string();
    let actual = get_workspace_name(
        &WorkspaceType::Regular("0".to_string()),
        &config.workspaces_name,
    );

    assert_eq!(actual, expected);

    let expected = "one".to_string();
    let actual = get_workspace_name(&workspace_type(1), &config.workspaces_name);

    assert_eq!(actual, expected);

    let expected = "3".to_string();
    let actual = get_workspace_name(&workspace_type(3), &config.workspaces_name);

    assert_eq!(actual, expected);
}
