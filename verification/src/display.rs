//! What the panes show.

use vstd::prelude::*;
use vstd::arithmetic::div_mod::{lemma_fundamental_div_mod, lemma_mod_bound};
use crate::actions::{any_match, file_has_custom_action, FileAction};
use crate::config::{Rgb, RowColors};
use crate::entry::{Entry, RowVisual, SortBy, SortDir, Timestamp};
use crate::git_status::has_name;
use crate::palette::Platform;
use crate::pane::{GitInfo, Pane};
use crate::path::{file_name, file_name_of, join_path, join_paths, stem_of, stem_of_name};
use crate::text::{chars_of, concat2, concat3, decimal, decimal_text, join_strings, join_texts};
use crate::text::{string_from, string_of, texts};
use vstd::slice::slice_subrange;

verus! {

// ---- Texts -----------------------------------------------------------------

/// A text cut to a number of characters, the last of which is then `…`.
pub open spec fn truncated(s: Seq<char>, max_chars: nat) -> Seq<char> {
    if s.len() <= max_chars {
        s
    } else if max_chars == 0 {
        seq![]
    } else {
        s.take(max_chars - 1).push('…')
    }
}

/// A text cut to a number of characters, the last of which is then `…`.
pub fn truncate_with_ellipsis(s: &str, max_chars: usize) -> (r: String)
    ensures
        r@ == truncated(s@, max_chars as nat),
{
    let v = chars_of(s);
    let n: usize = v.len();
    if n <= max_chars {
        string_from(s)
    } else if max_chars == 0 {
        let r = String::new();
        assert(r@ =~= seq![]);
        r
    } else {
        let head = slice_subrange(v.as_slice(), 0, max_chars - 1);
        let mut r = string_of(head);
        r.push('…');
        assert(r@ =~= s@.take(max_chars - 1).push('…'));
        r
    }
}

/// Cutting never makes a text longer than the limit.
pub proof fn truncated_fits(s: Seq<char>, max_chars: nat)
    ensures
        truncated(s, max_chars).len() <= max_chars,
        s.len() <= max_chars ==> truncated(s, max_chars) == s,
{
}

/// A quotient, rounded to the nearest integer; a tie goes to the even one.
pub open spec fn half_even(a: nat, b: nat) -> nat {
    let q = a / b;
    let r = a % b;
    if 2 * r < b || (2 * r == b && q % 2 == 0) {
        q
    } else {
        q + 1
    }
}

/// The distance of neighbouring double-precision numbers at a number, which
/// have 53 binary digits, once it is known to be at least `unit`.
pub open spec fn spacing(n: nat, unit: nat) -> nat
    decreases n - unit,
{
    if unit == 0 || n < 0x20_0000_0000_0000 * unit {
        unit
    } else {
        spacing(n, 2 * unit)
    }
}

/// The double-precision number next to a number.
pub open spec fn as_double(n: nat) -> nat {
    half_even(n, spacing(n, 1)) * spacing(n, 1)
}

/// The tenths in a number of bytes, measured in units.
pub open spec fn tenths(bytes: nat, unit: nat) -> nat {
    half_even(as_double(bytes) * 10, unit)
}

/// A number of tenths with one decimal.
pub open spec fn one_decimal(t: nat) -> Seq<char> {
    decimal(t / 10) + "."@ + decimal(t % 10)
}

/// A size for people: whole bytes and kilobytes, above that one decimal.
pub open spec fn size_text(bytes: nat) -> Seq<char> {
    if bytes < 1024 {
        decimal(bytes) + " B"@
    } else if bytes < 1048576 {
        decimal(bytes / 1024) + " KB"@
    } else if bytes < 1073741824 {
        one_decimal(tenths(bytes, 1048576)) + " MB"@
    } else {
        one_decimal(tenths(bytes, 1073741824)) + " GB"@
    }
}

fn round_half_even(a: u128, b: u128) -> (r: u128)
    requires
        0 < b <= 0x4000_0000,
        a < 0x1_0000_0000_0000_0000_0000,
    ensures
        r == half_even(a as nat, b as nat),
        r <= a + 1,
{
    let q: u128 = a / b;
    let m: u128 = a % b;
    proof {
        lemma_mod_bound(a as int, b as int);
        vstd::arithmetic::div_mod::lemma_div_is_ordered_by_denominator(a as int, 1, b as int);
        vstd::arithmetic::div_mod::lemma_div_basics(a as int);
    }
    if 2 * m < b || (2 * m == b && q % 2 == 0) {
        q
    } else {
        q + 1
    }
}

fn spacing_of(n: u64) -> (r: u128)
    ensures
        r == spacing(n as nat, 1),
        1 <= r <= 4096,
{
    let mut unit: u128 = 1;
    while n as u128 >= 0x20_0000_0000_0000 * unit
        invariant
            1 <= unit <= 4096,
            unit == 1 || n as u128 * 2 >= 0x20_0000_0000_0000 * unit,
            spacing(n as nat, 1) == spacing(n as nat, unit as nat),
        decreases 4096 - unit,
    {
        unit = 2 * unit;
    }
    unit
}

fn to_double(n: u64) -> (r: u128)
    ensures
        r == as_double(n as nat),
        r <= 0x1_0000_0000_0000_1000,
{
    let unit: u128 = spacing_of(n);
    let q: u128 = round_half_even(n as u128, unit);
    proof {
        lemma_fundamental_div_mod(n as int, unit as int);
        lemma_mod_bound(n as int, unit as int);
        let d = (n as int) / (unit as int);
        assert(q <= d + 1);
        assert(q * unit <= n + unit) by (nonlinear_arith)
            requires
                q <= d + 1,
                unit >= 1,
                n == unit * d + n as int % unit as int,
                n as int % unit as int >= 0,
        ;
    }
    q * unit
}

fn tenths_text(bytes: u64, unit: u128) -> (r: String)
    requires
        0x10_0000 <= unit <= 0x4000_0000,
    ensures
        r@ == one_decimal(tenths(bytes as nat, unit as nat)),
{
    let d: u128 = to_double(bytes);
    let t: u128 = round_half_even(d * 10, unit);
    proof {
        lemma_fundamental_div_mod(d * 10, unit as int);
        lemma_mod_bound(d * 10, unit as int);
        let q = (d * 10) / (unit as int);
        assert(q <= 0x1_0000_0000_0000_0000) by (nonlinear_arith)
            requires
                d * 10 == unit * q + (d * 10) % (unit as int),
                (d * 10) % (unit as int) >= 0,
                unit >= 0x10_0000,
                d <= 0x1_0000_0000_0000_1000,
        ;
    }
    let whole = decimal_text((t / 10) as u64);
    let part = decimal_text((t % 10) as u64);
    concat3(whole.as_str(), ".", part.as_str())
}

/// A size for people.
pub fn format_size(bytes: u64) -> (r: String)
    ensures
        r@ == size_text(bytes as nat),
{
    if bytes < 1024 {
        let n = decimal_text(bytes);
        concat2(n.as_str(), " B")
    } else if bytes < 1048576 {
        let n = decimal_text(bytes / 1024);
        concat2(n.as_str(), " KB")
    } else if bytes < 1073741824 {
        let n = tenths_text(bytes, 1048576);
        concat2(n.as_str(), " MB")
    } else {
        let n = tenths_text(bytes, 1073741824);
        concat2(n.as_str(), " GB")
    }
}

/// A character of a folder name that is safe everywhere.
pub open spec fn safe_char(c: char) -> char {
    if ('A' <= c && c <= 'Z') || ('a' <= c && c <= 'z') || ('0' <= c && c <= '9') || c == '-' || c
        == '_' {
        c
    } else {
        '_'
    }
}

/// The name of the folder that an archive is unpacked into.
pub open spec fn extract_folder(archive: Seq<char>, epoch_ms: nat) -> Seq<char> {
    let stem = match file_name(archive) {
        Some(n) => stem_of(n),
        None => "archive"@,
    };
    "rho-"@ + stem.map_values(|c: char| safe_char(c)) + "-"@ + decimal(epoch_ms)
}

fn safe_name(stem: &str) -> (r: String)
    ensures
        r@ == stem@.map_values(|c: char| safe_char(c)),
{
    let v = chars_of(stem);
    let ghost want = stem@.map_values(|c: char| safe_char(c));
    let mut out = String::new();
    let mut i: usize = 0;
    assert(out@ =~= want.take(0));
    while i < v.len()
        invariant
            i <= v@.len(),
            v@ == stem@,
            want == stem@.map_values(|c: char| safe_char(c)),
            out@ == want.take(i as int),
        decreases v.len() - i,
    {
        let c = v[i];
        let keep: bool = ('A' <= c && c <= 'Z') || ('a' <= c && c <= 'z') || ('0' <= c && c <= '9')
            || c == '-' || c == '_';
        out.push(
            if keep {
                c
            } else {
                '_'
            },
        );
        assert(out@ =~= want.take(i + 1));
        i += 1;
    }
    assert(want.take(i as int) =~= want);
    out
}

/// The name of the folder that an archive is unpacked into. The time keeps an
/// earlier extraction of the same archive apart.
pub fn extract_folder_name(archive: &str, epoch_ms: u64) -> (r: String)
    ensures
        r@ == extract_folder(archive@, epoch_ms as nat),
{
    let stem = match file_name_of(archive) {
        Some(n) => stem_of_name(n.as_str()),
        None => string_from("archive"),
    };
    let safe = safe_name(stem.as_str());
    let ms = decimal_text(epoch_ms);
    let mut r = concat3("rho-", safe.as_str(), "-");
    r.push_str(ms.as_str());
    r
}

/// Where an archive is unpacked to be browsed, where there is a `/tmp`.
pub fn tmp_extract_dest(archive: &str, epoch_ms: u64) -> (r: String)
    ensures
        r@ == "/tmp/"@ + extract_folder(archive@, epoch_ms as nat),
{
    let name = extract_folder_name(archive, epoch_ms);
    concat2("/tmp/", name.as_str())
}

/// Where an archive is unpacked to be browsed on a platform: on Windows in the
/// directory for temporary files that the system names.
pub fn extract_dest(platform: Platform, temp_dir: &str, archive: &str, epoch_ms: u64) -> (r: String)
    ensures
        r@ == if platform == Platform::Windows {
            join_path(temp_dir@, extract_folder(archive@, epoch_ms as nat))
        } else {
            "/tmp/"@ + extract_folder(archive@, epoch_ms as nat)
        },
{
    if platform == Platform::Windows {
        let name = extract_folder_name(archive, epoch_ms);
        join_paths(temp_dir, name.as_str())
    } else {
        tmp_extract_dest(archive, epoch_ms)
    }
}

// ---- Bars and headers ------------------------------------------------------

/// The parts of the git bar.
pub open spec fn git_bar_parts(info: GitInfo) -> Seq<Seq<char>> {
    let branch = seq!["branch: "@ + info.branch@];
    let uncommitted = if info.uncommitted > 0 {
        seq![
            decimal(info.uncommitted as nat) + " uncommitted "@ + (if info.uncommitted == 1 {
                "change"@
            } else {
                "changes"@
            }),
        ]
    } else {
        seq![]
    };
    let far = if info.ahead > 0 || info.behind > 0 {
        seq![
            "↑"@ + decimal(info.ahead as nat) + " ↓"@ + decimal(info.behind as nat)
                + " vs upstream"@,
        ]
    } else {
        seq![]
    };
    branch + uncommitted + far
}

/// The text of the git bar.
pub fn git_info_bar(info: &GitInfo) -> (r: String)
    ensures
        r@ == join_texts(git_bar_parts(*info), "   ·   "@),
{
    let mut parts: Vec<String> = Vec::new();
    parts.push(concat2("branch: ", info.branch.as_str()));
    if info.uncommitted > 0 {
        let n = decimal_text(info.uncommitted as u64);
        parts.push(
            concat3(
                n.as_str(),
                " uncommitted ",
                if info.uncommitted == 1 {
                    "change"
                } else {
                    "changes"
                },
            ),
        );
    }
    if info.ahead > 0 || info.behind > 0 {
        let a = decimal_text(info.ahead as u64);
        let b = decimal_text(info.behind as u64);
        let mut t = concat3("↑", a.as_str(), " ↓");
        t.push_str(b.as_str());
        t.push_str(" vs upstream");
        parts.push(t);
    }
    assert(texts(parts@) =~= git_bar_parts(*info));
    join_strings(&parts, "   ·   ")
}

/// The text of the filter bar.
pub fn filter_bar(pane: &Pane) -> (r: String)
    ensures
        r@ == "filter: /"@ + pane.filter@ + "/   ("@ + decimal(pane.visible_indices@.len())
            + " of "@ + decimal(pane.entries@.len()) + ")"@,
{
    let shown = decimal_text(pane.visible_indices.len() as u64);
    let all = decimal_text(pane.entries.len() as u64);
    let mut t = concat3("filter: /", pane.filter.as_str(), "/   (");
    t.push_str(shown.as_str());
    t.push_str(" of ");
    t.push_str(all.as_str());
    t.push_str(")");
    t
}

/// The arrow of a column header: only the column that is sorted by has one.
pub open spec fn arrow(active: bool, dir: SortDir) -> Seq<char> {
    if !active {
        seq![]
    } else {
        match dir {
            SortDir::Asc => " ↑"@,
            SortDir::Desc => " ↓"@,
        }
    }
}

/// The text of a column header.
pub fn header_label(label: &str, active: bool, dir: SortDir) -> (r: String)
    ensures
        r@ == label@ + arrow(active, dir),
{
    if !active {
        let r = string_from(label);
        assert(r@ =~= label@ + arrow(active, dir));
        return r;
    }
    match dir {
        SortDir::Asc => concat2(label, " ↑"),
        SortDir::Desc => concat2(label, " ↓"),
    }
}

/// The text of a pane's column header.
pub fn header_cell(pane: &Pane, label: &str, column: SortBy) -> (r: String)
    ensures
        r@ == label@ + arrow(pane.sort_by == column, pane.sort_dir),
{
    header_label(label, pane.sort_by == column, pane.sort_dir)
}

// ---- Rows ------------------------------------------------------------------

/// Whether a row is the cursor's, marked or neither.
pub open spec fn visual_of(pane: Pane, row: int) -> RowVisual {
    if pane.selected == row {
        RowVisual::Cursor
    } else if 0 <= row <= usize::MAX && pane.marked@.contains(row as usize) {
        RowVisual::Marked
    } else {
        RowVisual::Plain
    }
}

/// Whether a row is the cursor's, marked or neither.
pub fn row_visual(pane: &Pane, row_index: usize) -> (r: RowVisual)
    ensures
        r == visual_of(*pane, row_index as int),
{
    if pane.selected == row_index {
        RowVisual::Cursor
    } else if pane.is_marked(row_index) {
        RowVisual::Marked
    } else {
        RowVisual::Plain
    }
}

/// A row that stands out in the active pane.
pub open spec fn in_selection(visual: RowVisual, pane_active: bool) -> bool {
    pane_active && (visual == RowVisual::Cursor || visual == RowVisual::Marked)
}

/// The color of a row's name: none of its own in a selection.
pub open spec fn name_color(
    is_dir: bool,
    has_action: bool,
    visual: RowVisual,
    pane_active: bool,
    colors: RowColors,
) -> Option<Rgb> {
    if in_selection(visual, pane_active) {
        None
    } else if is_dir {
        colors.folder
    } else if has_action {
        colors.action
    } else {
        None
    }
}

/// The color of a row's name.
pub fn entry_name_color(
    is_dir: bool,
    has_action: bool,
    visual: RowVisual,
    pane_active: bool,
    colors: RowColors,
) -> (r: Option<Rgb>)
    ensures
        r == name_color(is_dir, has_action, visual, pane_active, colors),
{
    let selected: bool = pane_active && (visual == RowVisual::Cursor || visual
        == RowVisual::Marked);
    if selected {
        None
    } else if is_dir {
        colors.folder
    } else if has_action {
        colors.action
    } else {
        None
    }
}

/// What a background is painted with.
#[derive(Debug, Clone, Copy, PartialEq, Eq, Structural)]
pub enum Fill {
    /// What is behind shows through.
    Clear,
    Own(Rgb),
    /// The theme's strong primary color.
    PrimaryStrong,
    /// The theme's weak primary color.
    PrimaryWeak,
    /// A little of the theme's weak background.
    FaintStripe,
}

/// What a text is painted with.
#[derive(Debug, Clone, Copy, PartialEq, Eq, Structural)]
pub enum Ink {
    White,
    OnPrimaryStrong,
    OnPrimaryWeak,
    /// The theme's text color, dimmed a number of times.
    Base { dims: u8 },
}

/// How often a text is dimmed: in a dim row, and in a pane that is not active.
pub open spec fn dims_of(dim_row: bool, pane_active: bool) -> int {
    (if dim_row {
        1int
    } else {
        0
    }) + (if pane_active {
        0int
    } else {
        1
    })
}

/// How often a text is dimmed.
pub fn text_dims(dim_row: bool, pane_active: bool) -> (r: u8)
    ensures
        r == dims_of(dim_row, pane_active),
{
    let a: u8 = if dim_row {
        1
    } else {
        0
    };
    let b: u8 = if pane_active {
        0
    } else {
        1
    };
    a + b
}

/// The stripe of every other row.
pub open spec fn stripe_of(colors: RowColors, row: int) -> Fill {
    if row % 2 == 1 {
        match colors.stripe {
            Some(c) => Fill::Own(c),
            None => Fill::FaintStripe,
        }
    } else {
        Fill::Clear
    }
}

/// The stripe of every other row.
pub fn process_stripe(colors: RowColors, row_index: usize) -> (r: Fill)
    ensures
        r == stripe_of(colors, row_index as int),
{
    if row_index % 2 == 1 {
        match colors.stripe {
            Some(c) => Fill::Own(c),
            None => Fill::FaintStripe,
        }
    } else {
        Fill::Clear
    }
}

/// The highlight of the cursor's row: a color of one's own goes with white.
pub open spec fn cursor_paint(colors: RowColors) -> (Fill, Ink) {
    match colors.cursor {
        Some(c) => (Fill::Own(c), Ink::White),
        None => (Fill::PrimaryStrong, Ink::OnPrimaryStrong),
    }
}

/// The highlight of the cursor's row.
pub fn cursor_fill(colors: RowColors) -> (r: (Fill, Ink))
    ensures
        r == cursor_paint(colors),
{
    match colors.cursor {
        Some(c) => (Fill::Own(c), Ink::White),
        None => (Fill::PrimaryStrong, Ink::OnPrimaryStrong),
    }
}

/// How a row of a pane is painted.
pub open spec fn row_paint(
    visual: RowVisual,
    pane_active: bool,
    row: int,
    colors: RowColors,
    dim_row: bool,
) -> (Fill, Ink) {
    if pane_active && visual == RowVisual::Cursor {
        cursor_paint(colors)
    } else if pane_active && visual == RowVisual::Marked {
        match colors.mark {
            Some(c) => (Fill::Own(c), Ink::White),
            None => (Fill::PrimaryWeak, Ink::OnPrimaryWeak),
        }
    } else {
        (stripe_of(colors, row), Ink::Base { dims: dims_of(dim_row, pane_active) as u8 })
    }
}

/// How a row of a pane is painted.
pub fn compute_row_style(
    visual: RowVisual,
    pane_active: bool,
    row_index: usize,
    colors: RowColors,
    dim_row: bool,
) -> (r: (Fill, Ink))
    ensures
        r == row_paint(visual, pane_active, row_index as int, colors, dim_row),
{
    if pane_active && visual == RowVisual::Cursor {
        cursor_fill(colors)
    } else if pane_active && visual == RowVisual::Marked {
        match colors.mark {
            Some(c) => (Fill::Own(c), Ink::White),
            None => (Fill::PrimaryWeak, Ink::OnPrimaryWeak),
        }
    } else {
        (process_stripe(colors, row_index), Ink::Base { dims: text_dims(dim_row, pane_active) })
    }
}

/// A row of a pane.
#[derive(Debug)]
pub struct PaneRow {
    pub index: usize,
    pub name: String,
    pub size: String,
    pub modified: Option<Timestamp>,
    pub visual: RowVisual,
    pub name_color: Option<Rgb>,
    pub dim: bool,
    pub git_modified: bool,
}

/// A row of a pane as plain values.
#[verifier::ext_equal]
pub struct PaneRowView {
    pub index: int,
    pub name: Seq<char>,
    pub size: Seq<char>,
    pub modified: Option<Timestamp>,
    pub visual: RowVisual,
    pub name_color: Option<Rgb>,
    pub dim: bool,
    pub git_modified: bool,
}

impl View for PaneRow {
    type V = PaneRowView;

    open spec fn view(&self) -> PaneRowView {
        PaneRowView {
            index: self.index as int,
            name: self.name@,
            size: self.size@,
            modified: self.modified,
            visual: self.visual,
            name_color: self.name_color,
            dim: self.dim,
            git_modified: self.git_modified,
        }
    }
}

/// What the rows of a pane depend on besides the pane.
pub struct RowContext<'a> {
    pub active: bool,
    pub name_max_chars: usize,
    pub file_actions: &'a Vec<FileAction>,
    pub colors: RowColors,
}

/// The shown name of an entry: a directory ends in a slash, for which there is
/// always room.
pub open spec fn shown_name(e: Entry, max_chars: nat) -> Seq<char> {
    if e.is_dir {
        truncated(
            e.name@,
            if max_chars <= 2 {
                1
            } else {
                (max_chars - 1) as nat
            },
        ) + "/"@
    } else {
        truncated(e.name@, max_chars)
    }
}

/// Whether a name is listed as changed.
pub open spec fn is_changed(info: Option<GitInfo>, name: Seq<char>) -> bool {
    info matches Some(i) && texts(i.modified_names@).contains(name)
}

/// The row that shows an entry.
pub open spec fn entry_row(pane: Pane, row: int, e: Entry, ctx: RowContext) -> PaneRowView {
    let visual = visual_of(pane, row);
    let has_action = !e.is_dir && any_match(ctx.file_actions@, e.name@);
    PaneRowView {
        index: row,
        name: shown_name(e, ctx.name_max_chars as nat),
        size: match e.size {
            Some(n) => size_text(n as nat),
            None => seq![],
        },
        modified: e.modified,
        visual,
        name_color: name_color(e.is_dir, has_action, visual, ctx.active, ctx.colors),
        dim: e.name@.len() > 0 && e.name@[0] == '.' && !in_selection(visual, ctx.active),
        git_modified: is_changed(pane.git_info, e.name@),
    }
}

/// The row that leads to the parent directory: like a directory's, never dim.
pub open spec fn up_row(pane: Pane, ctx: RowContext) -> PaneRowView {
    let visual = visual_of(pane, 0);
    PaneRowView {
        index: 0,
        name: ".."@,
        size: seq![],
        modified: None,
        visual,
        name_color: name_color(true, false, visual, ctx.active, ctx.colors),
        dim: false,
        git_modified: false,
    }
}

/// The rows from `first` up to `last`.
pub open spec fn rows_between(pane: Pane, first: int, last: int, ctx: RowContext) -> Seq<
    PaneRowView,
>
    decreases last - first,
{
    if first < 0 || last <= first {
        seq![]
    } else {
        let before = rows_between(pane, first, last - 1, ctx);
        if last == 1 {
            before.push(up_row(pane, ctx))
        } else {
            match pane.spec_entry_at(last - 1) {
                Some(e) => before.push(entry_row(pane, last - 1, e, ctx)),
                None => before,
            }
        }
    }
}

fn changed_in(info: &Option<GitInfo>, name: &str) -> (r: bool)
    ensures
        r == is_changed(*info, name@),
{
    match info {
        Some(i) => has_name(&i.modified_names, name),
        None => false,
    }
}

fn row_of_entry(pane: &Pane, row: usize, e: &Entry, ctx: &RowContext) -> (r: PaneRow)
    ensures
        r@ == entry_row(*pane, row as int, *e, *ctx),
{
    let name = if e.is_dir {
        let budget: usize = if ctx.name_max_chars <= 2 {
            1
        } else {
            ctx.name_max_chars - 1
        };
        let cut = truncate_with_ellipsis(e.name.as_str(), budget);
        concat2(cut.as_str(), "/")
    } else {
        truncate_with_ellipsis(e.name.as_str(), ctx.name_max_chars)
    };
    let size = match e.size {
        Some(n) => format_size(n),
        None => String::new(),
    };
    let visual = row_visual(pane, row);
    let has_action: bool = !e.is_dir && file_has_custom_action(
        ctx.file_actions.as_slice(),
        e.name.as_str(),
    );
    let selected: bool = ctx.active && (visual == RowVisual::Cursor || visual == RowVisual::Marked);
    let v = chars_of(e.name.as_str());
    let dim: bool = v.len() > 0 && v[0] == '.' && !selected;
    PaneRow {
        index: row,
        name,
        size,
        modified: e.modified,
        visual,
        name_color: entry_name_color(e.is_dir, has_action, visual, ctx.active, ctx.colors),
        dim,
        git_modified: changed_in(&pane.git_info, e.name.as_str()),
    }
}

/// How many rows a pane has: those of the entries and the one that leads up.
pub open spec fn row_count(pane: Pane) -> int {
    pane.visible_indices@.len() + 1int
}

/// The rows that a view from `first` up to `last` shows: as far as there are.
pub open spec fn rows_shown(pane: Pane, first: int, last: int, ctx: RowContext) -> Seq<PaneRowView> {
    rows_between(
        pane,
        first,
        if last < row_count(pane) {
            last
        } else {
            row_count(pane)
        },
        ctx,
    )
}

/// The rows that a view from `first` up to `last` shows. Only those are built,
/// so that a large directory costs no more than a small one.
pub fn visible_rows(pane: &Pane, first: usize, last: usize, ctx: &RowContext) -> (r: Vec<PaneRow>)
    ensures
        r@.map_values(|p: PaneRow| p@) == rows_shown(*pane, first as int, last as int, *ctx),
{
    let n: usize = pane.visible_indices.len();
    let mut rows: Vec<PaneRow> = Vec::new();
    let mut row: usize = first;
    let ghost shown = |p: PaneRow| p@;
    let ghost end = if last < row_count(*pane) {
        last as int
    } else {
        row_count(*pane)
    };
    assert(rows@.map_values(shown) =~= rows_between(*pane, first as int, first as int, *ctx));
    while row < last && row <= n
        invariant
            n == pane.visible_indices@.len(),
            first <= row,
            row <= end || row == first,
            end == (if last < row_count(*pane) {
                last as int
            } else {
                row_count(*pane)
            }),
            shown == (|p: PaneRow| p@),
            rows@.map_values(shown) == rows_between(*pane, first as int, row as int, *ctx),
        decreases last - row,
    {
        let ghost before = rows@;
        if row == 0 {
            let visual = row_visual(pane, 0);
            let up = PaneRow {
                index: 0,
                name: string_from(".."),
                size: String::new(),
                modified: None,
                visual,
                name_color: entry_name_color(true, false, visual, ctx.active, ctx.colors),
                dim: false,
                git_modified: false,
            };
            assert(up@ =~= up_row(*pane, *ctx));
            rows.push(up);
            assert(rows@.map_values(shown) =~= before.map_values(shown).push(up@));
        } else {
            match pane.entry_at(row) {
                Some(e) => {
                    let p = row_of_entry(pane, row, e, ctx);
                    rows.push(p);
                    assert(rows@.map_values(shown) =~= before.map_values(shown).push(p@));
                },
                None => {},
            }
        }
        row += 1;
    }
    proof {
        if first as int >= end {
            assert(rows_between(*pane, first as int, end, *ctx) =~= rows_between(
                *pane,
                first as int,
                first as int,
                *ctx,
            ));
        }
    }
    rows
}

/// Whether a pane shows that it is loading instead of its rows: only as long
/// as there is nothing to show.
pub fn shows_loading(pane: &Pane) -> (r: bool)
    ensures
        r == (pane.loading && pane.entries@.len() == 0),
{
    pane.loading && pane.entries.len() == 0
}

/// A size is told in the unit that fits it. Bytes and kilobytes are whole, the
/// latter without what is left over; above that the number of tenths is the
/// nearest one.
pub proof fn sizes_are_nearest(bytes: nat)
    requires
        bytes < 0x20_0000_0000_0000,
    ensures
        bytes < 1024 ==> size_text(bytes) == decimal(bytes) + " B"@,
        1024 <= bytes < 1024 * 1024 ==> exists|k: nat|
            size_text(bytes) == #[trigger] decimal(k) + " KB"@ && 1024 * k <= bytes < 1024 * (k
                + 1),
        1024 * 1024 <= bytes < 1024 * 1024 * 1024 ==> exists|t: nat|
            size_text(bytes) == #[trigger] one_decimal(t) + " MB"@ && -1048576 <= 2 * (t * 1048576
                - 10 * bytes) <= 1048576,
        1024 * 1024 * 1024 <= bytes ==> exists|t: nat|
            size_text(bytes) == #[trigger] one_decimal(t) + " GB"@ && -1073741824 <= 2 * (t
                * 1073741824 - 10 * bytes) <= 1073741824,
        forall|a: nat, b: nat|
            #![trigger one_decimal(10 * a + b)]
            b < 10 ==> one_decimal(10 * a + b) == decimal(a) + "."@ + decimal(b),
{
    assert(spacing(bytes, 1) == 1);
    assert(half_even(bytes, 1) == bytes);
    assert(as_double(bytes) == bytes);
    if 1024 <= bytes < 1048576 {
        let k = bytes / 1024;
        assert(size_text(bytes) == decimal(k) + " KB"@);
    }
    if 1048576 <= bytes < 1073741824 {
        let t = tenths(bytes, 1048576);
        assert(size_text(bytes) == one_decimal(t) + " MB"@);
    }
    if 1073741824 <= bytes {
        let t = tenths(bytes, 1073741824);
        assert(size_text(bytes) == one_decimal(t) + " GB"@);
    }
    assert forall|a: nat, b: nat|
        #![trigger one_decimal(10 * a + b)]
        b < 10 implies one_decimal(10 * a + b) == decimal(a) + "."@ + decimal(b) by {
        assert((10 * a + b) / 10 == a);
        assert((10 * a + b) % 10 == b as int);
    }
}

/// A text that is cut keeps its start and ends in `…`.
pub proof fn cut_texts_keep_their_start(s: Seq<char>, max_chars: nat)
    requires
        0 < max_chars < s.len(),
    ensures
        truncated(s, max_chars).len() == max_chars,
        truncated(s, max_chars).last() == '…',
        truncated(s, max_chars).drop_last() == s.take(max_chars - 1),
{
    assert(truncated(s, max_chars).drop_last() =~= s.take(max_chars - 1));
}

/// The folder that an archive is unpacked into is one name, which tells the
/// archive and the time; letters, digits, hyphens and underscores of the
/// archive's name are kept, each other character becomes an underscore.
pub proof fn folders_for_archives_are_plain(
    archive: Seq<char>,
    stem: Seq<char>,
    ext: Seq<char>,
    at: nat,
)
    requires
        stem.len() > 0,
        !ext.contains('.'),
        file_name(archive) == Some(stem + seq!['.'] + ext),
    ensures
        exists|safe: Seq<char>|
            {
                &&& extract_folder(archive, at) == #[trigger] ("rho-"@ + safe) + "-"@ + decimal(at)
                &&& safe.len() == stem.len()
                &&& forall|i: int|
                    0 <= i < safe.len() ==> #[trigger] safe[i] == (if 'A' <= stem[i] <= 'Z' || 'a'
                        <= stem[i] <= 'z' || '0' <= stem[i] <= '9' || stem[i] == '-' || stem[i]
                        == '_' {
                        stem[i]
                    } else {
                        '_'
                    })
            },
{
    crate::path::names_are_stem_and_extension(stem, ext);
    let safe = stem.map_values(|c: char| safe_char(c));
    assert(extract_folder(archive, at) == ("rho-"@ + safe) + "-"@ + decimal(at));
}

/// Between two rows of a view each row is built: `..` first, and below it the
/// entry of each row with its own name, cut to its room, a slash behind a
/// directory, its size and its time.
pub proof fn every_row_is_shown(pane: Pane, first: int, last: int, ctx: RowContext, row: int)
    requires
        pane.wf(),
        0 <= first <= row < last <= pane.visible_indices@.len() + 1,
    ensures
        rows_between(pane, first, last, ctx).len() == last - first,
        ({
            let r = rows_between(pane, first, last, ctx)[row - first];
            &&& r.index == row
            &&& row == 0 ==> r.name == ".."@
            &&& r.visual == (if pane.selected == row {
                RowVisual::Cursor
            } else if row <= usize::MAX && pane.marked@.contains(row as usize) {
                RowVisual::Marked
            } else {
                RowVisual::Plain
            })
            &&& row > 0 ==> {
                let e = pane.entries@[pane.visible_indices@[row - 1] as int];
                &&& !e.is_dir && e.name@.len() <= ctx.name_max_chars ==> r.name == e.name@
                &&& e.is_dir && e.name@.len() < ctx.name_max_chars && ctx.name_max_chars > 2
                    ==> r.name == e.name@ + "/"@
                &&& e.size matches Some(n) ==> r.size == size_text(n as nat)
                &&& e.size is None ==> r.size.len() == 0
                &&& r.modified == e.modified
                &&& r.git_modified <==> (pane.git_info matches Some(i) && texts(
                    i.modified_names@,
                ).contains(e.name@))
            }
        }),
    decreases last - first,
{
    lemma_row_count(pane, first, last, ctx);
    if row < last - 1 {
        every_row_is_shown(pane, first, last - 1, ctx, row);
        lemma_row_count(pane, first, last - 1, ctx);
    } else {
        lemma_row_count(pane, first, last - 1, ctx);
        if row > 0 {
            assert(pane.visible_indices@[row - 1] < pane.entries@.len());
        }
    }
}

proof fn lemma_row_count(pane: Pane, first: int, last: int, ctx: RowContext)
    requires
        pane.wf(),
        0 <= first <= last <= pane.visible_indices@.len() + 1,
    ensures
        rows_between(pane, first, last, ctx).len() == last - first,
        first < last ==> rows_between(pane, first, last, ctx).drop_last() == rows_between(
            pane,
            first,
            last - 1,
            ctx,
        ),
    decreases last - first,
{
    if first < last {
        lemma_row_count(pane, first, last - 1, ctx);
        let before = rows_between(pane, first, last - 1, ctx);
        if last > 1 {
            assert(pane.visible_indices@[last - 2] < pane.entries@.len());
        }
        assert(rows_between(pane, first, last, ctx).drop_last() =~= before);
    }
}

/// The row of the cursor and the marked rows stand out in the active pane, in
/// their own colors where these are set; directories and files with actions have
/// their color elsewhere.
pub proof fn selections_stand_out(
    visual: RowVisual,
    row: int,
    colors: RowColors,
    is_dir: bool,
    has_action: bool,
    dim_row: bool,
)
    ensures
        visual == RowVisual::Cursor && colors.cursor is Some ==> row_paint(
            visual,
            true,
            row,
            colors,
            dim_row,
        ).0 == Fill::Own(colors.cursor->0),
        visual == RowVisual::Marked && colors.mark is Some ==> row_paint(
            visual,
            true,
            row,
            colors,
            dim_row,
        ).0 == Fill::Own(colors.mark->0),
        visual != RowVisual::Plain ==> name_color(is_dir, has_action, visual, true, colors) is None,
        is_dir ==> name_color(is_dir, has_action, RowVisual::Plain, true, colors) == colors.folder,
        !is_dir && has_action ==> name_color(is_dir, has_action, RowVisual::Plain, true, colors)
            == colors.action,
        !is_dir && !has_action ==> name_color(is_dir, has_action, visual, true, colors) is None,
        name_color(is_dir, has_action, visual, false, colors) == name_color(
            is_dir,
            has_action,
            RowVisual::Plain,
            true,
            colors,
        ),
{
}

/// A view shows as many rows as it spans and the pane has, and each row is the one
/// of its place whichever view shows it.
pub proof fn views_show_all_their_rows(
    pane: Pane,
    first: int,
    last: int,
    ctx: RowContext,
    row: int,
)
    requires
        pane.wf(),
        0 <= first <= row < last,
        row <= pane.visible_indices@.len(),
    ensures
        rows_shown(pane, first, last, ctx).len() == (if last <= pane.visible_indices@.len() {
            last
        } else {
            pane.visible_indices@.len() as int + 1
        }) - first,
        rows_shown(pane, first, last, ctx)[row - first].index == row,
        row == 0 ==> rows_shown(pane, first, last, ctx)[row - first].name == ".."@,
        row > 0 ==> ({
            let e = pane.entries@[pane.visible_indices@[row - 1] as int];
            &&& !e.is_dir && e.name@.len() <= ctx.name_max_chars ==> rows_shown(
                pane,
                first,
                last,
                ctx,
            )[row - first].name == e.name@
            &&& rows_shown(pane, first, last, ctx)[row - first].modified == e.modified
        }),
{
    let end = if last < pane.visible_indices@.len() + 1 {
        last
    } else {
        pane.visible_indices@.len() as int + 1
    };
    every_row_is_shown(pane, first, end, ctx, row);
}

} // verus!
