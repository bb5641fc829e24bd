use rho::config::{Config, DEFAULT_ACTION_COLOR, DEFAULT_FOLDER_EDITOR, FtpAuthMode, FtpConfig, FtpPerms, ThemeConfig, default_active_side, default_template_yaml, expand_tilde, parse_hex_color, row_colors_from, settings_path, state_path};
use rho::entry::Side;

#[test]
fn parse_hex_color_with_hash() {
    let c = parse_hex_color("#ff8800").unwrap();
    assert_eq!(c.r, 255);
    assert_eq!(c.g, 0x88);
    assert_eq!(c.b, 0);
}

#[test]
fn parse_hex_color_without_hash() {
    let c = parse_hex_color("00ff00").unwrap();
    assert_eq!(c.r, 0);
    assert_eq!(c.g, 255);
    assert_eq!(c.b, 0);
}

#[test]
fn parse_hex_color_rejects_short() {
    assert!(parse_hex_color("#fff").is_none());
}

#[test]
fn parse_hex_color_rejects_long() {
    assert!(parse_hex_color("#ff88001a").is_none());
}

#[test]
fn parse_hex_color_rejects_non_hex() {
    assert!(parse_hex_color("#gghhii").is_none());
}

#[test]
fn parse_hex_color_rejects_empty() {
    assert!(parse_hex_color("").is_none());
}

#[test]
fn parse_hex_color_strips_whitespace() {
    let c = parse_hex_color("  #112233  ").unwrap();
    assert_eq!(c.r, 0x11);
    assert_eq!(c.g, 0x22);
    assert_eq!(c.b, 0x33);
}

#[test]
fn default_stats_interval_is_two_secs() {
    assert_eq!(Config::default().stats_interval_secs, 2);
}

#[test]
fn expand_tilde_without_tilde_passes_through() {
    assert_eq!(expand_tilde("/var/log", "/home/me"), "/var/log");
}

#[test]
fn expand_tilde_with_tilde_slash_substitutes_home() {
    let expanded = expand_tilde("~/Documents", "/home/me");
    assert_eq!(expanded, "/home/me/Documents");
}

#[test]
fn expand_tilde_only() {
    // Just "~" expands to home (no trailing content).
    let expanded = expand_tilde("~", "/home/me");
    assert_eq!(expanded, "/home/me");
}

#[test]
fn default_active_side_is_left() {
    assert_eq!(default_active_side(), Side::Left);
}

#[test]
fn folder_editor_defaults_to_vscode_cli() {
    // Out of the box the action targets the VS Code CLI.
    assert_eq!(Config::default().folder_editor(), DEFAULT_FOLDER_EDITOR);
}

#[test]
fn folder_editor_uses_configured_value_and_trims() {
    let c = Config {
        folder_editor: Some("  /opt/nvim/bin/nvim  ".to_string()),
        ..Config::default()
    };
    assert_eq!(c.folder_editor(), "/opt/nvim/bin/nvim");
}

#[test]
fn folder_editor_falls_back_when_blank_or_unset() {
    let blank = Config {
        folder_editor: Some("   ".to_string()),
        ..Config::default()
    };
    assert_eq!(blank.folder_editor(), DEFAULT_FOLDER_EDITOR);
    let unset = Config {
        folder_editor: None,
        ..Config::default()
    };
    assert_eq!(unset.folder_editor(), DEFAULT_FOLDER_EDITOR);
}

#[test]
fn action_color_defaults_and_parses_into_row_colors() {
    // Out of the box RowColors.action resolves to the default violet.
    let colors = row_colors_from(&Config::default());
    assert_eq!(colors.action, parse_hex_color(DEFAULT_ACTION_COLOR));
    // A configured color wins; an unparseable one falls back to default.
    let custom = Config {
        theme: ThemeConfig {
            action: Some("#102030".to_string()),
            ..ThemeConfig::default()
        },
        ..Config::default()
    };
    assert_eq!(row_colors_from(&custom).action, parse_hex_color("#102030"));
    let bad = Config {
        theme: ThemeConfig {
            action: Some("not-a-color".to_string()),
            ..ThemeConfig::default()
        },
        ..Config::default()
    };
    assert_eq!(
        row_colors_from(&bad).action,
        parse_hex_color(DEFAULT_ACTION_COLOR)
    );
}

#[test]
fn file_actions_default_to_empty() {
    assert!(Config::default().file_actions.is_empty());
}

#[test]
fn quick_view_defaults_to_empty() {
    assert!(Config::default().quick_view.is_empty());
}

#[test]
fn row_colors_parses_hex_overrides() {
    let cfg = Config {
        theme: ThemeConfig {
            stripe: Some("#112233".to_string()),
            cursor: Some("#445566".to_string()),
            mark: Some("#778899".to_string()),
            folder: Some("#aabbcc".to_string()),
            ..ThemeConfig::default()
        },
        ..Config::default()
    };
    let colors = row_colors_from(&cfg);
    assert!(colors.stripe.is_some());
    assert!(colors.cursor.is_some());
    assert!(colors.mark.is_some());
    assert!(colors.folder.is_some());
}

#[test]
fn row_colors_unset_or_invalid_resolve_to_none() {
    let cfg = Config {
        theme: ThemeConfig {
            stripe: None,
            cursor: Some("not-a-color".to_string()),
            mark: Some("#xyzxyz".to_string()),
            folder: None,
            ..ThemeConfig::default()
        },
        ..Config::default()
    };
    let colors = row_colors_from(&cfg);
    assert!(colors.stripe.is_none());
    assert!(colors.cursor.is_none());
    assert!(colors.mark.is_none());
    assert!(colors.folder.is_none());
}

#[test]
fn ftp_config_defaults_are_lan_readwrite_generated() {
    let c = FtpConfig::default();
    assert_eq!(c.port, 2121);
    assert_eq!(c.bind, "0.0.0.0");
    assert_eq!(c.auth, FtpAuthMode::Generated);
    assert_eq!(c.permissions, FtpPerms::ReadWrite);
    // Narrow predictable passive range — easy to whitelist on a LAN
    // firewall. The defaults should be 51 ports.
    assert_eq!(c.passive_port_min, 50_000);
    assert_eq!(c.passive_port_max, 50_050);
    assert!(c.passive_host.is_none());
}

#[test]
fn ftp_config_passive_range_resolves_normally() {
    let c = FtpConfig::default();
    assert_eq!(c.resolved_passive_ports(), (50_000, 50_050));
}

#[test]
fn ftp_config_passive_range_falls_back_when_inverted() {
    let c = FtpConfig {
        passive_port_min: 60_000,
        passive_port_max: 50_000,
        ..FtpConfig::default()
    };
    assert_eq!(c.resolved_passive_ports(), (50_000, 50_050));
}

#[test]
fn ftp_config_passive_range_falls_back_when_zero() {
    let c = FtpConfig {
        passive_port_min: 0,
        passive_port_max: 0,
        ..FtpConfig::default()
    };
    assert_eq!(c.resolved_passive_ports(), (50_000, 50_050));
}

#[test]
fn ftp_config_passive_range_honors_explicit_pair() {
    let c = FtpConfig {
        passive_port_min: 30_000,
        passive_port_max: 30_010,
        ..FtpConfig::default()
    };
    assert_eq!(c.resolved_passive_ports(), (30_000, 30_010));
}

fn ftp_with(username: Option<&str>, password: Option<&str>) -> FtpConfig {
    FtpConfig {
        username: username.map(|s| s.to_string()),
        password: password.map(|s| s.to_string()),
        ..FtpConfig::default()
    }
}

#[test]
fn ftp_username_can_be_pinned() {
    let c = ftp_with(Some("ron"), None);
    assert_eq!(c.resolved_username(), "ron");
    assert!(c.resolved_password().is_none());
}

#[test]
fn ftp_password_can_be_pinned() {
    let c = ftp_with(None, Some("hunter2"));
    assert_eq!(c.resolved_username(), "rho");
    assert_eq!(c.resolved_password().as_deref(), Some("hunter2"));
}

#[test]
fn ftp_blank_credentials_count_as_unset() {
    let c = ftp_with(Some("   "), Some(""));
    assert_eq!(c.resolved_username(), "rho");
    assert!(c.resolved_password().is_none());
}

#[test]
fn ftp_pinned_pair_is_kept() {
    let c = ftp_with(Some("ron"), Some("hunter2"));
    assert_eq!(c.resolved_username(), "ron");
    assert_eq!(c.resolved_password().as_deref(), Some("hunter2"));
}

#[test]
fn dropbox_needs_key_and_token() {
    let mut c = Config::default();
    assert!(c.dropbox_auth().is_none());
    c.dropbox.app_key = Some("key".to_string());
    assert!(c.dropbox_auth().is_none());
    c.dropbox.refresh_token = Some("  ".to_string());
    assert!(c.dropbox_auth().is_none());
    c.dropbox.refresh_token = Some("token".to_string());
    c.dropbox.app_secret = Some(" ".to_string());
    let auth = c.dropbox_auth().unwrap();
    assert_eq!(auth.app_key, "key");
    assert_eq!(auth.refresh_token, "token");
    assert_eq!(auth.app_secret, None);
}

#[test]
fn parse_hex_color_rejects_signs() {
    assert!(parse_hex_color("+f+f+f").is_none());
    assert!(parse_hex_color("#ff-100").is_none());
}

#[test]
fn settings_and_state_live_at_home() {
    assert_eq!(settings_path("/home/me"), "/home/me/.rho.yaml");
    assert_eq!(state_path("/home/me"), "/home/me/.rho-state.yaml");
    assert!(default_template_yaml().contains("watch_folders"));
}

#[test]
fn only_a_leading_tilde_counts() {
    assert_eq!(expand_tilde("/a/~", "/home/me"), "/a/~");
    assert_eq!(expand_tilde("~x", "/home/me"), "/home/mex");
    assert_eq!(expand_tilde("", "/home/me"), "");
}

#[test]
fn pinned_credentials_are_kept_as_they_are() {
    let mut c = FtpConfig::default();
    c.username = Some(" ron ".to_string());
    c.password = Some("  hunter2 ".to_string());
    assert_eq!(c.resolved_username(), " ron ");
    assert_eq!(c.resolved_password().as_deref(), Some("  hunter2 "));
}
