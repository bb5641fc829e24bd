//! User settings, session state and colors.

use vstd::prelude::*;
use vstd::slice::slice_subrange;
use crate::actions::{FileAction, QuickViewAction};
use crate::entry::Side;
use crate::location::Location;
use crate::path::{join_path, join_paths};
use crate::text::{chars_of, concat2, string_from, string_of, trim, trim_chars, trim_text};

verus! {

pub const SETTINGS_FILENAME: &'static str = ".rho.yaml";

pub const STATE_FILENAME: &'static str = ".rho-state.yaml";

/// The editor that folders are opened in unless another is set.
pub const DEFAULT_FOLDER_EDITOR: &'static str = "/usr/local/bin/code";

/// The name color of files with a matching action unless another is set.
pub const DEFAULT_ACTION_COLOR: &'static str = "#b48ead";

/// The settings file that a first start leaves behind.
pub const SETTINGS_TEMPLATE: &'static str = "# Rho configuration file — edits are picked up live (no restart needed).\n\
     # Initial window size. Only read at startup — hot reload won't resize an\n\
     # already-open window.\n\
     window:\n\
     \x20\x20width: 1100.0\n\
     \x20\x20rows: 35\n\
     # Row/column/font geometry for the pane lists.\n\
     layout:\n\
     \x20\x20row_height_px: 19.0\n\
     \x20\x20row_font_size: 13\n\
     \x20\x20header_font_size: 11\n\
     \x20\x20size_column_px: 80.0\n\
     \x20\x20modified_column_px: 140.0\n\
     \x20\x20mono_glyph_px: 7.5\n\
     # Color overrides (#rrggbb). Comment out a field to derive it from theme.\n\
     theme:\n\
     \x20\x20folder: \"#6db4ff\"\n\
     \x20\x20# stripe: \"#1c1d1f\"\n\
     \x20\x20# cursor: \"#3a80c8\"\n\
     \x20\x20# mark: \"#2a4a6a\"\n\
     \x20\x20# Name color for files with a matching file_actions entry (below).\n\
     \x20\x20# action: \"#b48ead\"\n\
     # Folders to watch for new files. App pops up a prompt offering to switch\n\
     # a pane to that folder. Non-recursive. Restart to apply changes.\n\
     watch_folders:\n\
     \x20\x20- \"~/Downloads\"\n\
     # macOS only. Which terminal app the SSH / Docker shell actions use.\n\
     # Defaults to \"iTerm\" if /Applications/iTerm.app exists, else \"Terminal\".\n\
     # terminal_app: \"iTerm\"\n\
     # Editor launched by \"Open folder in editor\" (run as `<editor> <folder>`).\n\
     # Defaults to the VS Code CLI; point it at any editor that opens a folder.\n\
     # folder_editor: \"/usr/local/bin/code\"\n\
     # Custom \"open with…\" actions. Pressing Enter on a file shows a chooser:\n\
     # \"Open with default application\" plus every action whose pattern (a\n\
     # *.glob, case-insensitive) matches the file name. command placeholders:\n\
     #   {file} name (report.md)  {stem} name w/o ext (report)  {ext} ext (md)\n\
     #   {path} absolute path     {dir} parent dir\n\
     # Commands run with the file's folder as the working directory. Each\n\
     # placeholder is shell-quoted automatically, so DON'T add your own quotes\n\
     # around one (names with spaces / special chars are handled). terminal:\n\
     # true opens a terminal window (for interactive / long-running commands);\n\
     # the default (false) runs in the background and refreshes the pane.\n\
     # file_actions:\n\
     #   - pattern: \"*.md\"\n\
     #     label: \"Convert to PDF (pandoc)\"\n\
     #     command: \"pandoc -o {stem}.pdf {file}\"\n\
     #   - pattern: \"*.tar.gz\"\n\
     #     label: \"Inspect in shell\"\n\
     #     command: \"tar tzvf {file} | less\"\n\
     #     terminal: true\n\
     # Quick view: while the cursor sits on a matching file, the first entry\n\
     # whose pattern matches runs (or, with no command, just reads the file)\n\
     # and shows the result live in the opposite pane's bottom half. Same\n\
     # placeholders as file_actions. Commands time out after 5s and output is\n\
     # capped at 200KB; no terminal option (output is always captured, never\n\
     # interactive).\n\
     # quick_view:\n\
     #   - pattern: \"*.log\"\n\
     #     label: \"Tail\"\n\
     #     command: \"tail -n 200 {file}\"\n\
     #   - pattern: \"*\"\n\
     #     label: \"Preview\"\n\
     # Dropbox backend. Lets panes browse / copy / move / delete under dropbox:/\n\
     # and enables the \"Open Dropbox\" command. Full setup (create app, grant\n\
     # files.* scopes, mint a refresh token via the authorize flow) is in the\n\
     # docs: https://ronkeizer.github.io/rho/configuration.html#dropbox\n\
     # Gotchas: the refresh_token is NOT the App Console's \"Generate access\n\
     # token\" button (that's a short-lived sl.* access token); after changing\n\
     # scopes you must re-authorize; after editing these, restart rho.\n\
     # app_secret is only needed for non-PKCE apps.\n\
     # dropbox:\n\
     #   app_key: \"xxxxxxxxxxxxxxx\"\n\
     #   app_secret: \"xxxxxxxxxxxxxxx\"\n\
     #   refresh_token: \"xxxxxxxxxxxxxxxxxxxxxxxxxxxxxxxxxxxx\"\n\
     # In-app FTP server (Command Palette → \"FTP server\"). Defaults shown;\n\
     # any omitted field falls back to the default. Changes apply on next\n\
     # server start — stop the running server first via the FTP info modal.\n\
     # Leave username / password unset to use the built-in default user\n\
     # (\"rho\") plus a fresh random password on every start. Setting them\n\
     # pins the credentials; rho.yaml is plain text, so treat the file as\n\
     # readable to anyone with access to your home directory.\n\
     # ftp:\n\
     #   port: 2121\n\
     #   bind: \"0.0.0.0\"            # \"127.0.0.1\" for loopback-only\n\
     #   auth: generated             # generated | anonymous\n\
     #   permissions: read-write     # read-write | read-only\n\
     #   username: \"ron\"\n\
     #   password: \"hunter2\"\n\
     #   # Passive-mode data-channel ports. Narrow + predictable so you\n\
     #   # can whitelist them on a router / firewall once. Open these in\n\
     #   # your firewall along with the control port (2121 above) — most\n\
     #   # \"control connects but transfer hangs\" symptoms come from a\n\
     #   # filtered passive range. macOS users: also tell the Application\n\
     #   # Firewall to allow rho (System Settings → Network → Firewall).\n\
     #   passive_port_min: 50000\n\
     #   passive_port_max: 50050\n\
     #   # Hostname / IPv4 the server advertises in PASV responses. Unset\n\
     #   # means \"echo whichever interface the client connected to\" —\n\
     #   # set this when you're behind NAT or on a multi-homed box.\n\
     #   passive_host: \"192.168.1.42\"\n\
     # System monitor (Command Palette → \"System monitor\"). Seconds between\n\
     # background CPU/memory samples. The sampler runs from app start so the\n\
     # graph is already populated when you open the modal. Lower = smoother\n\
     # graph but more frequent polling. Hot-reloaded.\n\
     # stats_interval_secs: 2\n";

/// A text, if there is one, is kept as it is unless it is blank.
pub open spec fn unless_blank(s: Option<String>) -> Option<Seq<char>> {
    match s {
        Some(t) => if trim(t@).len() > 0 {
            Some(t@)
        } else {
            None
        },
        None => None,
    }
}

/// A text that is there and holds more than white space.
pub open spec fn is_filled(s: Option<String>) -> bool {
    s matches Some(t) && trim(t@).len() > 0
}

fn kept_unless_blank(s: &Option<String>) -> (r: Option<String>)
    ensures
        match r {
            Some(t) => unless_blank(*s) == Some(t@),
            None => unless_blank(*s) is None,
        },
{
    match s {
        Some(t) => {
            let v = trim_text(t.as_str());
            if v.as_str().is_empty() {
                None
            } else {
                Some(t.clone())
            }
        },
        None => None,
    }
}

fn filled(s: &Option<String>) -> (r: bool)
    ensures
        r == is_filled(*s),
{
    match s {
        Some(t) => {
            let v = trim_text(t.as_str());
            !v.as_str().is_empty()
        },
        None => false,
    }
}

/// Color overrides as `#rrggbb`; what is unset follows the theme.
#[derive(Debug)]
pub struct ThemeConfig {
    pub stripe: Option<String>,
    pub cursor: Option<String>,
    pub mark: Option<String>,
    pub folder: Option<String>,
    pub action: Option<String>,
}

impl Default for ThemeConfig {
    fn default() -> (r: Self)
        ensures
            r.stripe is None,
            r.cursor is None,
            r.mark is None,
            r.folder matches Some(c) && c@ == "#6db4ff"@,
            r.action matches Some(c) && c@ == DEFAULT_ACTION_COLOR@,
    {
        ThemeConfig {
            stripe: None,
            cursor: None,
            mark: None,
            folder: Some(string_from("#6db4ff")),
            action: Some(string_from(DEFAULT_ACTION_COLOR)),
        }
    }
}

/// Credentials of the Dropbox account, as far as they are set.
#[derive(Debug)]
pub struct DropboxConfig {
    pub app_key: Option<String>,
    pub app_secret: Option<String>,
    pub refresh_token: Option<String>,
}

impl Default for DropboxConfig {
    fn default() -> (r: Self)
        ensures
            r.app_key is None,
            r.app_secret is None,
            r.refresh_token is None,
    {
        DropboxConfig { app_key: None, app_secret: None, refresh_token: None }
    }
}

/// How clients of the FTP server log in.
#[derive(Debug, Clone, Copy, PartialEq, Eq, Structural)]
pub enum FtpAuthMode {
    Generated,
    Anonymous,
}

/// What clients of the FTP server may do.
#[derive(Debug, Clone, Copy, PartialEq, Eq, Structural)]
pub enum FtpPerms {
    ReadOnly,
    ReadWrite,
}

/// Settings of the FTP server.
#[derive(Debug)]
pub struct FtpConfig {
    pub port: u16,
    pub bind: String,
    pub auth: FtpAuthMode,
    pub permissions: FtpPerms,
    pub username: Option<String>,
    pub password: Option<String>,
    pub passive_port_min: u16,
    pub passive_port_max: u16,
    pub passive_host: Option<String>,
}

pub fn default_passive_port_min() -> (r: u16)
    ensures
        r == 50000,
{
    50000
}

pub fn default_passive_port_max() -> (r: u16)
    ensures
        r == 50050,
{
    50050
}

impl Default for FtpConfig {
    fn default() -> (r: Self)
        ensures
            r.port == 2121,
            r.bind@ == "0.0.0.0"@,
            r.auth == FtpAuthMode::Generated,
            r.permissions == FtpPerms::ReadWrite,
            r.username is None,
            r.password is None,
            r.passive_port_min == 50000,
            r.passive_port_max == 50050,
            r.passive_host is None,
    {
        FtpConfig {
            port: 2121,
            bind: string_from("0.0.0.0"),
            auth: FtpAuthMode::Generated,
            permissions: FtpPerms::ReadWrite,
            username: None,
            password: None,
            passive_port_min: default_passive_port_min(),
            passive_port_max: default_passive_port_max(),
            passive_host: None,
        }
    }
}

/// The ports for data connections: the given pair where it is a range of
/// proper ports, otherwise the default one.
pub open spec fn passive_range(lo: u16, hi: u16) -> (u16, u16) {
    if lo == 0 || hi == 0 || lo > hi {
        (50000, 50050)
    } else {
        (lo, hi)
    }
}

/// Whatever is configured, there is at least one port, and none is port 0.
pub proof fn passive_range_is_usable(lo: u16, hi: u16)
    ensures
        0 < passive_range(lo, hi).0 <= passive_range(lo, hi).1,
{
}

impl FtpConfig {
    /// The user name for generated credentials: the one that is set, or `rho`.
    pub fn resolved_username(&self) -> (r: String)
        ensures
            r@ == match unless_blank(self.username) {
                Some(u) => u,
                None => "rho"@,
            },
    {
        match kept_unless_blank(&self.username) {
            Some(u) => u,
            None => string_from("rho"),
        }
    }

    /// The password that is set, as it is, unless it is blank.
    pub fn resolved_password(&self) -> (r: Option<String>)
        ensures
            match r {
                Some(p) => unless_blank(self.password) == Some(p@),
                None => unless_blank(self.password) is None,
            },
    {
        kept_unless_blank(&self.password)
    }

    /// The ports for data connections.
    pub fn resolved_passive_ports(&self) -> (r: (u16, u16))
        ensures
            r == passive_range(self.passive_port_min, self.passive_port_max),
    {
        if self.passive_port_min == 0 || self.passive_port_max == 0 || self.passive_port_min
            > self.passive_port_max {
            (default_passive_port_min(), default_passive_port_max())
        } else {
            (self.passive_port_min, self.passive_port_max)
        }
    }
}

/// Credentials that suffice to reach the Dropbox account.
#[derive(Debug, PartialEq, Eq)]
pub struct DropboxAuth {
    pub app_key: String,
    pub app_secret: Option<String>,
    pub refresh_token: String,
}

/// The settings but for the geometry of the window and its rows.
#[derive(Debug)]
pub struct Config {
    pub theme: ThemeConfig,
    pub file_actions: Vec<FileAction>,
    pub quick_view: Vec<QuickViewAction>,
    pub watch_folders: Vec<String>,
    pub terminal_app: Option<String>,
    pub folder_editor: Option<String>,
    pub dropbox: DropboxConfig,
    pub ftp: FtpConfig,
    pub stats_interval_secs: u64,
}

/// How many seconds lie between two samples of the system monitor.
pub fn default_stats_interval_secs() -> (r: u64)
    ensures
        r == 2,
{
    2
}

impl Default for Config {
    fn default() -> (r: Self)
        ensures
            r.theme.stripe is None,
            r.theme.cursor is None,
            r.theme.mark is None,
            r.theme.folder matches Some(c) && c@ == "#6db4ff"@,
            r.theme.action matches Some(c) && c@ == DEFAULT_ACTION_COLOR@,
            r.file_actions@.len() == 0,
            r.quick_view@.len() == 0,
            r.watch_folders@.len() == 1,
            r.watch_folders@[0]@ == "~/Downloads"@,
            r.terminal_app is None,
            r.folder_editor matches Some(e) && e@ == DEFAULT_FOLDER_EDITOR@,
            r.dropbox.app_key is None,
            r.dropbox.app_secret is None,
            r.dropbox.refresh_token is None,
            r.ftp.port == 2121,
            r.ftp.bind@ == "0.0.0.0"@,
            r.ftp.auth == FtpAuthMode::Generated,
            r.ftp.permissions == FtpPerms::ReadWrite,
            r.ftp.username is None,
            r.ftp.password is None,
            r.ftp.passive_port_min == 50000,
            r.ftp.passive_port_max == 50050,
            r.ftp.passive_host is None,
            r.stats_interval_secs == 2,
    {
        let mut watch_folders: Vec<String> = Vec::new();
        watch_folders.push(string_from("~/Downloads"));
        Config {
            theme: ThemeConfig::default(),
            file_actions: Vec::new(),
            quick_view: Vec::new(),
            watch_folders,
            terminal_app: None,
            folder_editor: Some(string_from(DEFAULT_FOLDER_EDITOR)),
            dropbox: DropboxConfig::default(),
            ftp: FtpConfig::default(),
            stats_interval_secs: default_stats_interval_secs(),
        }
    }
}

impl Config {
    /// Whether the Dropbox account can be reached with what is set.
    pub open spec fn has_dropbox_auth(&self) -> bool {
        is_filled(self.dropbox.app_key) && is_filled(self.dropbox.refresh_token)
    }

    /// The Dropbox credentials: there where neither the app key nor the refresh
    /// token is missing or blank. A blank secret counts as none.
    pub fn dropbox_auth(&self) -> (r: Option<DropboxAuth>)
        ensures
            r is Some == self.has_dropbox_auth(),
            r matches Some(a) ==> {
                &&& self.dropbox.app_key == Some(a.app_key)
                &&& self.dropbox.refresh_token == Some(a.refresh_token)
                &&& a.app_secret == (if is_filled(self.dropbox.app_secret) {
                    self.dropbox.app_secret
                } else {
                    None::<String>
                })
            },
    {
        if !filled(&self.dropbox.app_key) || !filled(&self.dropbox.refresh_token) {
            return None;
        }
        let app_secret: Option<String> = if filled(&self.dropbox.app_secret) {
            match &self.dropbox.app_secret {
                Some(s) => Some(s.clone()),
                None => None,
            }
        } else {
            None
        };
        match (&self.dropbox.app_key, &self.dropbox.refresh_token) {
            (Some(k), Some(t)) => Some(
                DropboxAuth { app_key: k.clone(), app_secret, refresh_token: t.clone() },
            ),
            _ => None,
        }
    }

    /// The editor that folders are opened in: the one that is set, trimmed, or
    /// the default where it is unset or blank.
    pub fn folder_editor(&self) -> (r: String)
        ensures
            r@ == match unless_blank(self.folder_editor) {
                Some(e) => trim(e),
                None => DEFAULT_FOLDER_EDITOR@,
            },
    {
        match kept_unless_blank(&self.folder_editor) {
            Some(e) => trim_text(e.as_str()),
            None => string_from(DEFAULT_FOLDER_EDITOR),
        }
    }
}

/// Where the settings are kept.
pub fn settings_path(home: &str) -> (r: String)
    ensures
        r@ == join_path(home@, SETTINGS_FILENAME@),
{
    join_paths(home, SETTINGS_FILENAME)
}

/// What a session leaves for the next one.
#[derive(Debug)]
pub struct SavedState {
    pub left: Location,
    pub right: Location,
    pub active: Side,
    /// Recently visited local directories, the last one first.
    pub recent: Vec<String>,
}

pub fn default_active_side() -> (r: Side)
    ensures
        r == Side::Left,
{
    Side::Left
}

/// Where the session state is kept.
pub fn state_path(home: &str) -> (r: String)
    ensures
        r@ == join_path(home@, STATE_FILENAME@),
{
    join_paths(home, STATE_FILENAME)
}

/// The settings file that a first start leaves behind.
pub fn default_template_yaml() -> (r: &'static str)
    ensures
        r@ == SETTINGS_TEMPLATE@,
{
    SETTINGS_TEMPLATE
}

/// A path with a leading `~` replaced by the home directory.
pub open spec fn tilde_expanded(p: Seq<char>, home: Seq<char>) -> Seq<char> {
    if p.len() > 0 && p[0] == '~' {
        home + p.skip(1)
    } else {
        p
    }
}

/// A path with a leading `~` replaced by the home directory.
pub fn expand_tilde(p: &str, home: &str) -> (r: String)
    ensures
        r@ == tilde_expanded(p@, home@),
{
    let v = chars_of(p);
    if v.len() > 0 && v[0] == '~' {
        let rest = slice_subrange(v.as_slice(), 1, v.len());
        assert(rest@ =~= p@.skip(1));
        let text = string_of(rest);
        concat2(home, text.as_str())
    } else {
        string_from(p)
    }
}

/// A color by its three channels.
#[derive(Debug, Clone, Copy, PartialEq, Eq, Structural)]
pub struct Rgb {
    pub r: u8,
    pub g: u8,
    pub b: u8,
}

/// The value of a hexadecimal digit.
pub open spec fn hex_value(c: char) -> Option<int> {
    if '0' <= c && c <= '9' {
        Some(c as int - '0' as int)
    } else if 'a' <= c && c <= 'f' {
        Some(c as int - 'a' as int + 10)
    } else if 'A' <= c && c <= 'F' {
        Some(c as int - 'A' as int + 10)
    } else {
        None
    }
}

/// The text without the `#` characters that it starts with.
pub open spec fn without_hashes(s: Seq<char>) -> Seq<char>
    decreases s.len(),
{
    if s.len() > 0 && s[0] == '#' {
        without_hashes(s.skip(1))
    } else {
        s
    }
}

/// The two digits at `i` as a number.
pub open spec fn hex_pair(s: Seq<char>, i: int) -> Option<int> {
    match (hex_value(s[i]), hex_value(s[i + 1])) {
        (Some(a), Some(b)) => Some(16 * a + b),
        _ => None,
    }
}

/// The color that a text denotes: six hexadecimal digits, perhaps after a `#`
/// and between white space.
pub open spec fn hex_color(s: Seq<char>) -> Option<(int, int, int)> {
    let d = without_hashes(trim(s));
    if d.len() == 6 {
        match (hex_pair(d, 0), hex_pair(d, 2), hex_pair(d, 4)) {
            (Some(r), Some(g), Some(b)) => Some((r, g, b)),
            _ => None,
        }
    } else {
        None
    }
}

fn hex_digit(c: char) -> (r: Option<u8>)
    ensures
        match r {
            Some(n) => hex_value(c) == Some(n as int) && n < 16,
            None => hex_value(c) is None,
        },
{
    if '0' <= c && c <= '9' {
        Some((c as u32 - '0' as u32) as u8)
    } else if 'a' <= c && c <= 'f' {
        Some((c as u32 - 'a' as u32) as u8 + 10)
    } else if 'A' <= c && c <= 'F' {
        Some((c as u32 - 'A' as u32) as u8 + 10)
    } else {
        None
    }
}

fn hex_byte(s: &[char], i: usize) -> (r: Option<u8>)
    requires
        i + 1 < s@.len(),
    ensures
        match r {
            Some(n) => hex_pair(s@, i as int) == Some(n as int),
            None => hex_pair(s@, i as int) is None,
        },
{
    match (hex_digit(s[i]), hex_digit(s[i + 1])) {
        (Some(a), Some(b)) => Some(16 * a + b),
        _ => None,
    }
}

/// The color that a text denotes.
pub fn parse_hex_color(s: &str) -> (r: Option<Rgb>)
    ensures
        match r {
            Some(c) => hex_color(s@) == Some((c.r as int, c.g as int, c.b as int)),
            None => hex_color(s@) is None,
        },
{
    let v = chars_of(s);
    let t = trim_chars(v.as_slice());
    let mut i: usize = 0;
    assert(t@.skip(0) =~= t@);
    while i < t.len() && t[i] == '#'
        invariant
            i <= t@.len(),
            without_hashes(t@) == without_hashes(t@.skip(i as int)),
        decreases t.len() - i,
    {
        assert(t@.skip(i as int).skip(1) =~= t@.skip(i + 1));
        i += 1;
    }
    let d = slice_subrange(t, i, t.len());
    assert(d@ =~= t@.skip(i as int));
    if d.len() != 6 {
        return None;
    }
    match (hex_byte(d, 0), hex_byte(d, 2), hex_byte(d, 4)) {
        (Some(r), Some(g), Some(b)) => Some(Rgb { r, g, b }),
        _ => None,
    }
}

/// The colors of the rows; what is `None` follows the theme.
#[derive(Debug, Clone, Copy, PartialEq, Eq)]
pub struct RowColors {
    pub cursor: Option<Rgb>,
    pub mark: Option<Rgb>,
    pub stripe: Option<Rgb>,
    pub folder: Option<Rgb>,
    pub action: Option<Rgb>,
}

/// The color that an override denotes, if it is set and valid.
pub open spec fn override_color(s: Option<String>) -> Option<(int, int, int)> {
    match s {
        Some(t) => hex_color(t@),
        None => None,
    }
}

/// A color as plain values.
pub open spec fn rgb_view(c: Option<Rgb>) -> Option<(int, int, int)> {
    match c {
        Some(c) => Some((c.r as int, c.g as int, c.b as int)),
        None => None,
    }
}

fn color_from(s: &Option<String>) -> (r: Option<Rgb>)
    ensures
        rgb_view(r) == override_color(*s),
{
    match s {
        Some(t) => parse_hex_color(t.as_str()),
        None => None,
    }
}

/// The row colors that the settings ask for. An invalid color counts as unset;
/// the action color then has its default.
pub fn row_colors_from(config: &Config) -> (r: RowColors)
    ensures
        rgb_view(r.cursor) == override_color(config.theme.cursor),
        rgb_view(r.mark) == override_color(config.theme.mark),
        rgb_view(r.stripe) == override_color(config.theme.stripe),
        rgb_view(r.folder) == override_color(config.theme.folder),
        rgb_view(r.action) == match override_color(config.theme.action) {
            Some(c) => Some(c),
            None => hex_color(DEFAULT_ACTION_COLOR@),
        },
{
    let action = match color_from(&config.theme.action) {
        Some(c) => Some(c),
        None => parse_hex_color(DEFAULT_ACTION_COLOR),
    };
    RowColors {
        cursor: color_from(&config.theme.cursor),
        mark: color_from(&config.theme.mark),
        stripe: color_from(&config.theme.stripe),
        folder: color_from(&config.theme.folder),
        action,
    }
}

/// A leading `~` stands for the home directory and what follows it stays; every
/// other path is kept as it is.
pub proof fn only_a_leading_tilde_is_home(p: Seq<char>, home: Seq<char>)
    ensures
        tilde_expanded(seq!['~'] + p, home) == home + p,
        p.len() > 0 && p[0] != '~' ==> tilde_expanded(p, home) == p,
        tilde_expanded(seq![], home) == Seq::<char>::empty(),
{
    assert((seq!['~'] + p).skip(1) =~= p);
}

/// The number that a hexadecimal digit stands for.
pub open spec fn stands_for(c: char, n: int) -> bool {
    ||| 0 <= n <= 9 && c as int == '0' as int + n
    ||| 10 <= n <= 15 && c as int == 'a' as int + n - 10
    ||| 10 <= n <= 15 && c as int == 'A' as int + n - 10
}

/// Six hexadecimal digits are a color, two for each channel, with or without a
/// `#` before them.
pub proof fn six_digits_are_a_color(s: Seq<char>, v: Seq<int>)
    requires
        s.len() == 6,
        v.len() == 6,
        forall|i: int| 0 <= i < 6 ==> stands_for(#[trigger] s[i], v[i]),
    ensures
        hex_color(s) == Some((16 * v[0] + v[1], 16 * v[2] + v[3], 16 * v[4] + v[5])),
        hex_color(seq!['#'] + s) == hex_color(s),
        forall|c: char| #[trigger] hex_color(s.push(c)) is Some ==> crate::text::is_white(c),
        hex_color(s.drop_last()) is None,
{
    assert forall|i: int| 0 <= i < 6 implies hex_value(#[trigger] s[i]) == Some(v[i])
        && !crate::text::is_white(s[i]) && s[i] != '#' by {
        assert(stands_for(s[i], v[i]));
    }
    assert(s =~= Seq::<char>::empty() + s + Seq::<char>::empty());
    crate::text::trimming_takes_white_ends_only(seq![], s, seq![]);
    let h = seq!['#'] + s;
    assert(h =~= Seq::<char>::empty() + h + Seq::<char>::empty());
    assert(h.last() == s[5]);
    crate::text::trimming_takes_white_ends_only(seq![], h, seq![]);
    assert(h.skip(1) =~= s);
    reveal_with_fuel(without_hashes, 2);
    assert(s[0] != '#');
    let d = s.drop_last();
    assert(d[0] == s[0] && d.last() == s[4]);
    assert(d =~= Seq::<char>::empty() + d + Seq::<char>::empty());
    crate::text::trimming_takes_white_ends_only(seq![], d, seq![]);
    assert forall|c: char| #[trigger] hex_color(s.push(c)) is Some implies crate::text::is_white(
        c,
    ) by {
        let l = s.push(c);
        if !crate::text::is_white(c) {
            assert(l =~= Seq::<char>::empty() + l + Seq::<char>::empty());
            crate::text::trimming_takes_white_ends_only(seq![], l, seq![]);
            assert(l[0] == s[0]);
        }
    }
}

/// The account can be reached where the app key and the refresh token both hold
/// more than white space; what is set and not blank is kept as it is.
pub proof fn credentials_must_be_filled(c: Config, s: String)
    ensures
        c.has_dropbox_auth() <==> (c.dropbox.app_key matches Some(k) && trim(k@).len() > 0) && (
        c.dropbox.refresh_token matches Some(t) && trim(t@).len() > 0),
        trim(s@).len() > 0 ==> unless_blank(Some(s)) == Some(s@),
        trim(s@).len() == 0 ==> unless_blank(Some(s)) is None,
        unless_blank(None) is None,
{
}

} // verus!
