//! What can happen to the application, and what it asks to be done.

use vstd::prelude::*;
use crate::apps::Application;
use crate::config::Config;
use crate::docker::{DockerContainer, DockerSortBy};
use crate::entry::{Entry, Side, SortBy};
use crate::ftp::{FtpInfoFocus, FtpLogEntry, FtpReplaceFocus, FtpServerInfo};
use crate::git::GitBranch;
use crate::location::Location;
use crate::palette::PaletteAction;
use crate::pane::GitInfo;
use crate::process::{Process, ProcessSortBy};
use crate::prompt::{DeleteFocus, NewFilesFocus, Prompt};
use crate::ssh::SshServer;
use crate::text::same_text;

verus! {

/// The outcome of a file operation on one source.
pub type Outcome = (String, Result<(), String>);

/// An event: a key, a click, or the end of something that was asked for.
#[derive(Debug)]
pub enum Message {
    ShiftChanged(bool),
    CommandChanged(bool),
    Activate(Side),
    RowClicked(Side, usize),
    GoUpActive,
    MoveSelection(i32, bool),
    PageMove(i8, bool),
    /// To the first row (`true`) or the last one.
    MoveToEdge(bool, bool),
    SwitchSide,
    ActivateSelection,
    ToggleSort(Side, SortBy),
    OpenPrompt,
    OpenCopyPrompt,
    OpenMovePrompt,
    OpenNewFolderPrompt,
    OpenDeletePrompt,
    SwitchPromptFocus,
    OpenSettingsFile,
    FilterAppend(String),
    SettingsLoaded(Config),
    PromptChanged(String),
    PromptSubmit,
    PromptCancel,
    EntriesChunk(Side, u64, Vec<Entry>),
    EntriesDone(Side, u64),
    GitInfoLoaded(Side, u64, Option<GitInfo>),
    MarkersProbed(Side, u64, bool, bool),
    EditFile,
    QuickLook,
    CopyFinished(Vec<Outcome>),
    MoveFinished(Vec<Outcome>),
    DeleteFinished(Vec<Outcome>),
    CompressFinished(Result<String, String>),
    UncompressFinished(Vec<Outcome>),
    ExtractedToTemp(String, Result<(), String>),
    NewFilesDetected(String, Vec<String>),
    NewFilesPickSide(Side),
    OpenCommandPalette,
    PromptMove(i32),
    OpenRecent(String),
    PaletteSelect(PaletteAction),
    DockerListLoaded(Result<Vec<DockerContainer>, String>),
    DockerKill(String),
    DockerKillFinished(String, Result<(), String>),
    DockerShell(String),
    ProcessesListLoaded(Result<Vec<Process>, String>),
    ProcessKill(u32),
    ProcessKillFinished(u32, Result<(), String>),
    DockerToggleSort(DockerSortBy),
    ProcessToggleSort(ProcessSortBy),
    AppsListLoaded(Result<Vec<Application>, String>),
    LaunchApp(String),
    GitBranchesLoaded(Result<Vec<GitBranch>, String>),
    GitCheckout(String),
    GitCheckoutFinished(String, Result<(), String>),
    SshServersLoaded(Result<Vec<SshServer>, String>),
    SshConnect(String),
    SshOpenInPane(String),
    FileChoiceActivate(usize),
    ToggleChoiceEdit,
    FileActionFinished(Result<(), String>),
    /// A new folder or file was made, or not.
    ItemMade(Result<(), String>),
    FtpStarted(Result<FtpServerInfo, String>),
    FtpServerStopRequest,
    FtpServerReplaceConfirmed(String),
    FtpLogEvent(FtpLogEntry),
    WatchedDirChanged(String),
    FileDropped(String),
    FlushDrops(u64, Side),
    QuickViewDebounceFire(u64),
    QuickViewLoaded(u64, Side, Result<String, String>),
    ExitApp,
    NoOp,
}

/// Something to be done outside: each is carried out in order.
#[derive(Debug)]
#[allow(inconsistent_fields)]
pub enum Effect {
    /// Start to load a listing; its chunks carry the generation.
    Load { side: Side, location: Location, generation: u64 },
    /// Look for the marker files of a pane's directory.
    ProbeMarkers { side: Side, generation: u64 },
    SaveState,
    /// Scroll the cursor of a pane into view.
    EnsureVisible(Side),
    /// Scroll the cursor of a pane to the middle of the view.
    ScrollToFocused(Side),
    FocusInput,
    OpenSettings,
    OpenDefault(String),
    Edit(String),
    QuickLook(String),
    /// Copy each source into the directory.
    Copy { srcs: Vec<Location>, dest: Location },
    /// Copy one source to exactly this path.
    CopyAs { src: Location, dest: Location },
    Move { srcs: Vec<Location>, dest: Location },
    Rename { src: Location, dest: Location },
    Delete(Vec<Location>),
    Compress { srcs: Vec<String>, output: String, working_dir: String },
    Uncompress { archives: Vec<String>, dest: String },
    ExtractToTemp(String),
    /// Make a directory, with those above it that are missing.
    MakeDir(String),
    /// Make an empty file and open it in the editor.
    MakeFile(String),
    ListContainers,
    KillContainer(String),
    ContainerShell(String),
    ListProcesses,
    KillProcess(u32),
    ScanApps,
    LaunchApp(String),
    ListBranches(String),
    Checkout { repo: String, branch: String },
    ReadSshConfig,
    SshConnect(String),
    OpenClaudeCode(String),
    OpenTerminal(String),
    OpenInEditor(String),
    RevealInFinder(String),
    /// Run a shell line in a directory.
    RunCommand { command: String, dir: String, terminal: bool },
    StartFtp(String),
    StopFtp,
    /// Come back with `FlushDrops` once no further drop can follow.
    AwaitDrops(u64),
    /// Come back with `QuickViewDebounceFire` once the cursor has settled.
    AwaitQuickView(u64),
    RunQuickView(u64),
    /// Measure a pane again that was squeezed by a preview.
    Remeasure(Side),
    Exit,
}

/// What is known of the outside when a message is handled.
pub struct Surroundings {
    /// The home directory.
    pub home: String,
    /// How many rows the page keys move by.
    pub page_rows: i32,
    /// The paths, of those that were asked about, that are directories.
    pub dirs: Vec<String>,
    /// The paths, of those that were asked about, where there is anything.
    pub existing: Vec<String>,
}

/// Some string of the list has this text.
pub open spec fn lists(v: Seq<String>, text: Seq<char>) -> bool {
    exists|i: int| 0 <= i < v.len() && (#[trigger] v[i])@ == text
}

fn listed(v: &Vec<String>, text: &str) -> (r: bool)
    ensures
        r == lists(v@, text@),
{
    let mut i: usize = 0;
    while i < v.len()
        invariant
            i <= v@.len(),
            forall|k: int| 0 <= k < i ==> (#[trigger] v@[k])@ != text@,
        decreases v.len() - i,
    {
        if same_text(v[i].as_str(), text) {
            assert(v@[i as int]@ == text@);
            return true;
        }
        i += 1;
    }
    false
}

impl Surroundings {
    pub open spec fn spec_is_dir(&self, p: Seq<char>) -> bool {
        lists(self.dirs@, p)
    }

    pub open spec fn spec_exists(&self, p: Seq<char>) -> bool {
        lists(self.existing@, p)
    }

    pub fn is_dir(&self, p: &str) -> (r: bool)
        ensures
            r == self.spec_is_dir(p@),
    {
        listed(&self.dirs, p)
    }

    pub fn exists_at(&self, p: &str) -> (r: bool)
        ensures
            r == self.spec_exists(p@),
    {
        listed(&self.existing, p)
    }
}

/// What a key means while a dialog is open. In a dialog of buttons, Enter
/// presses the focused one and Tab goes to the next; in a dialog with a list,
/// the keys that move the cursor move the highlight.
pub open spec fn redirected(prompt: Option<Prompt>, m: Message) -> Message {
    match prompt {
        None => m,
        Some(p) => match p {
            Prompt::Delete { focus, .. } | Prompt::ConfirmLargeExtract { focus, .. } => match m {
                Message::ActivateSelection => match focus {
                    DeleteFocus::Confirm => Message::PromptSubmit,
                    DeleteFocus::Cancel => Message::PromptCancel,
                },
                Message::SwitchSide => Message::SwitchPromptFocus,
                other => other,
            },
            Prompt::NewFiles { focus, .. } => match m {
                Message::ActivateSelection => match focus {
                    NewFilesFocus::No => Message::PromptCancel,
                    NewFilesFocus::Left => Message::NewFilesPickSide(Side::Left),
                    NewFilesFocus::Right => Message::NewFilesPickSide(Side::Right),
                },
                Message::SwitchSide => Message::SwitchPromptFocus,
                other => other,
            },
            Prompt::FtpInfo { focus, .. } => match m {
                Message::ActivateSelection => match focus {
                    FtpInfoFocus::Stop => Message::FtpServerStopRequest,
                    FtpInfoFocus::Close => Message::PromptCancel,
                },
                Message::SwitchSide => Message::SwitchPromptFocus,
                other => other,
            },
            Prompt::FtpReplace { new_root, focus, .. } => match m {
                Message::ActivateSelection => match focus {
                    FtpReplaceFocus::Replace => Message::FtpServerReplaceConfirmed(new_root),
                    FtpReplaceFocus::Cancel => Message::PromptCancel,
                },
                Message::SwitchSide => Message::SwitchPromptFocus,
                other => other,
            },
            Prompt::FileActions { .. } => match m {
                Message::ActivateSelection => Message::PromptSubmit,
                Message::MoveSelection(delta, _) => Message::PromptMove(delta),
                Message::PageMove(dir, _) => Message::PromptMove((dir * 5) as i32),
                Message::SwitchSide => Message::ToggleChoiceEdit,
                other => other,
            },
            Prompt::Open { .. }
            | Prompt::CommandPalette { .. }
            | Prompt::Processes { .. }
            | Prompt::Apps { .. }
            | Prompt::GitBranches { .. }
            | Prompt::SshServers { .. } => match m {
                Message::MoveSelection(delta, _) => Message::PromptMove(delta),
                Message::PageMove(dir, _) => Message::PromptMove((dir * 5) as i32),
                Message::SwitchSide => Message::PromptMove(1),
                other => other,
            },
            _ => m,
        },
    }
}

/// The messages that belong to the panes and do nothing while a dialog is open.
pub open spec fn is_pane_message(m: Message) -> bool {
    match m {
        Message::MoveSelection(..)
        | Message::PageMove(..)
        | Message::MoveToEdge(..)
        | Message::ActivateSelection
        | Message::SwitchSide
        | Message::GoUpActive
        | Message::EditFile
        | Message::QuickLook
        | Message::OpenCopyPrompt
        | Message::OpenMovePrompt
        | Message::OpenNewFolderPrompt
        | Message::OpenDeletePrompt
        | Message::OpenCommandPalette
        | Message::FilterAppend(..) => true,
        _ => false,
    }
}

/// Deleting, unpacking a large archive and replacing a server all wait for the
/// button that says so: with the focus where such a dialog opens it, Enter
/// leaves it without doing anything.
pub proof fn enter_on_the_first_focus_cancels(p: Prompt)
    requires
        match p {
            Prompt::Delete { focus, .. } | Prompt::ConfirmLargeExtract { focus, .. } => focus
                == DeleteFocus::Cancel,
            Prompt::NewFiles { focus, .. } => focus == NewFilesFocus::No,
            Prompt::FtpInfo { focus, .. } => focus == FtpInfoFocus::Close,
            Prompt::FtpReplace { focus, .. } => focus == FtpReplaceFocus::Cancel,
            _ => false,
        },
    ensures
        redirected(Some(p), Message::ActivateSelection) == Message::PromptCancel,
{
}

/// While any dialog is open, no key reaches the panes: what it means is either
/// a message to the dialog or one that is dropped.
pub proof fn dialogs_keep_keys_from_panes(p: Prompt, m: Message)
    ensures
        !is_pane_message(m) ==> redirected(Some(p), m) == m,
        redirected(Some(p), m) != m ==> !is_pane_message(redirected(Some(p), m)),
{
}

/// Whether a message belongs to the panes.
pub fn pane_message(m: &Message) -> (r: bool)
    ensures
        r == is_pane_message(*m),
{
    match m {
        Message::MoveSelection(..)
        | Message::PageMove(..)
        | Message::MoveToEdge(..)
        | Message::ActivateSelection
        | Message::SwitchSide
        | Message::GoUpActive
        | Message::EditFile
        | Message::QuickLook
        | Message::OpenCopyPrompt
        | Message::OpenMovePrompt
        | Message::OpenNewFolderPrompt
        | Message::OpenDeletePrompt
        | Message::OpenCommandPalette
        | Message::FilterAppend(..) => true,
        _ => false,
    }
}

/// What a message means with this dialog open.
pub fn redirect(prompt: &Option<Prompt>, m: Message) -> (r: Message)
    ensures
        r == redirected(*prompt, m),
{
    match prompt {
        None => m,
        Some(p) => match p {
            Prompt::Delete { focus, .. } | Prompt::ConfirmLargeExtract { focus, .. } => match m {
                Message::ActivateSelection => match focus {
                    DeleteFocus::Confirm => Message::PromptSubmit,
                    DeleteFocus::Cancel => Message::PromptCancel,
                },
                Message::SwitchSide => Message::SwitchPromptFocus,
                other => other,
            },
            Prompt::NewFiles { focus, .. } => match m {
                Message::ActivateSelection => match focus {
                    NewFilesFocus::No => Message::PromptCancel,
                    NewFilesFocus::Left => Message::NewFilesPickSide(Side::Left),
                    NewFilesFocus::Right => Message::NewFilesPickSide(Side::Right),
                },
                Message::SwitchSide => Message::SwitchPromptFocus,
                other => other,
            },
            Prompt::FtpInfo { focus, .. } => match m {
                Message::ActivateSelection => match focus {
                    FtpInfoFocus::Stop => Message::FtpServerStopRequest,
                    FtpInfoFocus::Close => Message::PromptCancel,
                },
                Message::SwitchSide => Message::SwitchPromptFocus,
                other => other,
            },
            Prompt::FtpReplace { new_root, focus, .. } => match m {
                Message::ActivateSelection => match focus {
                    FtpReplaceFocus::Replace => Message::FtpServerReplaceConfirmed(
                        new_root.clone(),
                    ),
                    FtpReplaceFocus::Cancel => Message::PromptCancel,
                },
                Message::SwitchSide => Message::SwitchPromptFocus,
                other => other,
            },
            Prompt::FileActions { .. } => match m {
                Message::ActivateSelection => Message::PromptSubmit,
                Message::MoveSelection(delta, _) => Message::PromptMove(delta),
                Message::PageMove(dir, _) => Message::PromptMove(dir as i32 * 5),
                Message::SwitchSide => Message::ToggleChoiceEdit,
                other => other,
            },
            Prompt::Open { .. }
            | Prompt::CommandPalette { .. }
            | Prompt::Processes { .. }
            | Prompt::Apps { .. }
            | Prompt::GitBranches { .. }
            | Prompt::SshServers { .. } => match m {
                Message::MoveSelection(delta, _) => Message::PromptMove(delta),
                Message::PageMove(dir, _) => Message::PromptMove(dir as i32 * 5),
                Message::SwitchSide => Message::PromptMove(1),
                other => other,
            },
            _ => m,
        },
    }
}

/// The dialog that an event confirms, if it does.
pub(crate) fn is_submit<'a>(prompt: &'a Option<Prompt>, m: &Message) -> (r: Option<&'a Prompt>)
    ensures
        match r {
            Some(p) => *prompt == Some(*p) && redirected(*prompt, *m) is PromptSubmit,
            None => prompt is None || !(redirected(*prompt, *m) is PromptSubmit),
        },
{
    match prompt {
        None => None,
        Some(p) => {
            let enter: bool = match m {
                Message::ActivateSelection => true,
                _ => false,
            };
            let submit: bool = match m {
                Message::PromptSubmit => true,
                _ => match p {
                    Prompt::Delete { focus, .. } | Prompt::ConfirmLargeExtract { focus, .. } => enter
                        && *focus == DeleteFocus::Confirm,
                    Prompt::FileActions { .. } => enter,
                    _ => false,
                },
            };
            if submit {
                Some(p)
            } else {
                None
            }
        },
    }
}

/// A list of one effect.
pub(crate) fn one(e: Effect) -> (r: Vec<Effect>)
    ensures
        r@ == seq![e],
{
    let mut r: Vec<Effect> = Vec::new();
    r.push(e);
    assert(r@ =~= seq![e]);
    r
}

/// A list of two effects.
pub(crate) fn two(a: Effect, b: Effect) -> (r: Vec<Effect>)
    ensures
        r@ == seq![a, b],
{
    let mut r: Vec<Effect> = Vec::new();
    r.push(a);
    r.push(b);
    assert(r@ =~= seq![a, b]);
    r
}

} // verus!
