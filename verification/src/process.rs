//! Running processes, as `ps` lists them.

use vstd::prelude::*;
use crate::entry::SortDir;
use crate::filtering::{items_of, keep_flagged, lemma_mapped_step, mapped_some, query_matches, Query};
use crate::sorting::{number_key, number_order, sort_items, sorted_stably, text_key, text_order};
use crate::sorting::{keeps_order_of, sorted_lists_are_in_order, SortKey};
use crate::text::{decimal, decimals_are_digits, first_words_are_split_off, is_digit, is_white};
use crate::text::{lemma_text_less_total, numbers_are_read_back, text_less};
use crate::text::trimming_takes_white_ends_only;
use crate::text::{chars_of, lines, lowercase, parse_number, parse_number_chars, slice_texts};
use crate::text::{split_at_white, split_lines, split_white, string_of, trim, trim_chars, trim_start};
use crate::text::trim_start_chars;

verus! {

/// A share of a resource as `ps` printed it, with the number that it is
/// ordered by: a larger share has a larger rank.
#[derive(Debug, PartialEq, Eq)]
pub struct Share {
    pub text: String,
    pub rank: i64,
}

/// One process with its share of processor time and of memory.
#[derive(Debug, PartialEq, Eq)]
pub struct Process {
    pub pid: u32,
    pub name: String,
    pub cpu: Share,
    pub mem: Share,
}

/// What the processes dialog shows.
#[derive(Debug)]
pub enum ProcessesState {
    Loading,
    Loaded(Vec<Process>),
    Error(String),
}

/// The column that processes are sorted by.
#[derive(Debug, Clone, Copy, PartialEq, Eq, Structural)]
pub enum ProcessSortBy {
    Name,
    Pid,
    Cpu,
    Mem,
}

impl ProcessSortBy {
    /// The header of the column.
    pub fn label(self) -> (r: &'static str)
        ensures
            r@ == match self {
                ProcessSortBy::Name => "Name"@,
                ProcessSortBy::Pid => "PID"@,
                ProcessSortBy::Cpu => "CPU"@,
                ProcessSortBy::Mem => "MEM"@,
            },
    {
        match self {
            ProcessSortBy::Name => "Name",
            ProcessSortBy::Pid => "PID",
            ProcessSortBy::Cpu => "CPU",
            ProcessSortBy::Mem => "MEM",
        }
    }

    pub open spec fn spec_initial_dir(self) -> SortDir {
        match self {
            ProcessSortBy::Name => SortDir::Asc,
            _ => SortDir::Desc,
        }
    }

    /// The direction that a newly chosen column is sorted in: numbers start
    /// with the largest, names with the first.
    pub fn initial_dir(self) -> (r: SortDir)
        ensures
            r == self.spec_initial_dir(),
    {
        match self {
            ProcessSortBy::Name => SortDir::Asc,
            ProcessSortBy::Pid | ProcessSortBy::Cpu | ProcessSortBy::Mem => SortDir::Desc,
        }
    }
}

/// Whether one process must be listed before another.
pub open spec fn process_less(a: Process, b: Process, by: ProcessSortBy, dir: SortDir) -> bool {
    let desc = dir == SortDir::Desc;
    match by {
        ProcessSortBy::Name => text_order(lowercase(a.name@), lowercase(b.name@), desc),
        ProcessSortBy::Pid => number_order(a.pid as int, b.pid as int, desc),
        ProcessSortBy::Cpu => number_order(a.cpu.rank as int, b.cpu.rank as int, desc),
        ProcessSortBy::Mem => number_order(a.mem.rank as int, b.mem.rank as int, desc),
    }
}

/// `new_list` is `old_list` sorted by a column.
pub open spec fn processes_sorted(
    old_list: Seq<Process>,
    new_list: Seq<Process>,
    by: ProcessSortBy,
    dir: SortDir,
) -> bool {
    sorted_stably(old_list, new_list, |a: Process, b: Process| process_less(a, b, by, dir))
}

fn shifted(rank: i64) -> (r: u128)
    ensures
        r == rank + 0x8000_0000_0000_0000,
{
    let s: i128 = rank as i128 + 0x8000_0000_0000_0000i128;
    s as u128
}

/// Sorts processes by a column; equal ones keep their order.
pub fn sort_processes(processes: &mut Vec<Process>, by: ProcessSortBy, dir: SortDir)
    ensures
        processes_sorted(old(processes)@, final(processes)@, by, dir),
{
    let ghost before = processes@;
    let mut keys: Vec<SortKey> = Vec::new();
    let mut i: usize = 0;
    while i < processes.len()
        invariant
            processes@ == before,
            i <= before.len(),
            keys@.len() == i,
            forall|k: int|
                0 <= k < i ==> {
                    let key = (#[trigger] keys@[k])@;
                    &&& !key.group
                    &&& key.text == (if by == ProcessSortBy::Name {
                        lowercase(before[k].name@)
                    } else {
                        seq![]
                    })
                    &&& key.number == match by {
                        ProcessSortBy::Name => 0,
                        ProcessSortBy::Pid => before[k].pid as int,
                        ProcessSortBy::Cpu => before[k].cpu.rank + 0x8000_0000_0000_0000,
                        ProcessSortBy::Mem => before[k].mem.rank + 0x8000_0000_0000_0000,
                    }
                },
        decreases processes.len() - i,
    {
        let p = &processes[i];
        let key = match by {
            ProcessSortBy::Name => {
                let lower = p.name.as_str().to_lowercase();
                text_key(chars_of(lower.as_str()))
            },
            ProcessSortBy::Pid => number_key(p.pid as u128),
            ProcessSortBy::Cpu => number_key(shifted(p.cpu.rank)),
            ProcessSortBy::Mem => number_key(shifted(p.mem.rank)),
        };
        keys.push(key);
        i += 1;
    }
    let desc: bool = match dir {
        SortDir::Asc => false,
        SortDir::Desc => true,
    };
    sort_items(
        processes,
        &keys,
        desc,
        Ghost(|a: Process, b: Process| process_less(a, b, by, dir)),
    );
}

/// A line of `ps` split into its columns; the two shares are still text.
#[derive(Debug, PartialEq, Eq)]
pub struct PsRow {
    pub pid: u32,
    pub cpu_text: String,
    pub mem_text: String,
    pub name: String,
}

/// The columns of a line as plain values.
pub struct PsRowView {
    pub pid: nat,
    pub cpu_text: Seq<char>,
    pub mem_text: Seq<char>,
    pub name: Seq<char>,
}

impl View for PsRow {
    type V = PsRowView;

    open spec fn view(&self) -> PsRowView {
        PsRowView {
            pid: self.pid as nat,
            cpu_text: self.cpu_text@,
            mem_text: self.mem_text@,
            name: self.name@,
        }
    }
}

/// The columns of a line: a process id, two shares and a name, which is all
/// that follows and may hold white space.
pub open spec fn ps_line(line: Seq<char>) -> Option<PsRowView> {
    match split_white(trim_start(line)) {
        None => None,
        Some((pid, rest)) => match split_white(trim_start(rest)) {
            None => None,
            Some((cpu, rest)) => match split_white(trim_start(rest)) {
                None => None,
                Some((mem, name)) => match parse_number(pid, u32::MAX as nat) {
                    None => None,
                    Some(n) => if trim(name).len() == 0 {
                        None
                    } else {
                        Some(PsRowView { pid: n, cpu_text: cpu, mem_text: mem, name: trim(name) })
                    },
                },
            },
        },
    }
}

/// The rows of a sequence as plain values.
pub open spec fn ps_views(v: Seq<PsRow>) -> Seq<PsRowView> {
    Seq::new(v.len(), |i: int| v[i]@)
}

fn parse_ps_line(line: &[char]) -> (r: Option<PsRow>)
    ensures
        match r {
            Some(row) => ps_line(line@) == Some(row@),
            None => ps_line(line@) is None,
        },
{
    let (pid, rest) = match split_at_white(trim_start_chars(line)) {
        Some(p) => p,
        None => return None,
    };
    let (cpu, rest) = match split_at_white(trim_start_chars(rest)) {
        Some(p) => p,
        None => return None,
    };
    let (mem, name) = match split_at_white(trim_start_chars(rest)) {
        Some(p) => p,
        None => return None,
    };
    let n: u64 = match parse_number_chars(pid, u32::MAX as u64) {
        Some(n) => n,
        None => return None,
    };
    let name = trim_chars(name);
    if name.len() == 0 {
        return None;
    }
    assert(n <= u32::MAX);
    Some(
        PsRow {
            pid: n as u32,
            cpu_text: string_of(cpu),
            mem_text: string_of(mem),
            name: string_of(name),
        },
    )
}

/// The rows that a text of such lines holds.
pub open spec fn ps_rows_of(text: Seq<char>) -> Seq<PsRowView> {
    mapped_some(lines(text), |l: Seq<char>| ps_line(l))
}

/// Reads the lines of `ps -axo pid=,pcpu=,pmem=,comm=` in their order; lines
/// of another form are passed over.
pub fn parse_ps_rows(stdout: &str) -> (r: Vec<PsRow>)
    ensures
        ps_views(r@) == ps_rows_of(stdout@),
{
    let v = chars_of(stdout);
    let ls = split_lines(v.as_slice());
    let ghost all = lines(stdout@);
    let ghost f = |l: Seq<char>| ps_line(l);
    let mut r: Vec<PsRow> = Vec::new();
    let mut i: usize = 0;
    assert(slice_texts(ls@).len() == ls@.len());
    assert(ps_views(r@) =~= mapped_some(all.take(0), f));
    while i < ls.len()
        invariant
            i <= ls@.len(),
            ls@.len() == all.len(),
            slice_texts(ls@) == all,
            f == (|l: Seq<char>| ps_line(l)),
            ps_views(r@) == mapped_some(all.take(i as int), f),
        decreases ls.len() - i,
    {
        proof {
            lemma_mapped_step(all, i as int, f);
            assert(slice_texts(ls@)[i as int] == ls@[i as int]@);
        }
        match parse_ps_line(ls[i]) {
            Some(row) => {
                let ghost done = ps_views(r@);
                let ghost rv = row@;
                r.push(row);
                assert(ps_views(r@) =~= done.push(rv));
            },
            None => {},
        }
        i += 1;
    }
    assert(all.take(all.len() as int) =~= all);
    r
}

/// The processes of the rows whose shares are numbers.
pub open spec fn rated(rows: Seq<PsRow>, shares: Seq<Option<(Share, Share)>>) -> Seq<Process>
    decreases rows.len(),
{
    if rows.len() == 0 || shares.len() == 0 {
        seq![]
    } else {
        let before = rated(rows.drop_last(), shares.drop_last());
        match shares.last() {
            Some((cpu, mem)) => before.push(
                Process { pid: rows.last().pid, name: rows.last().name, cpu, mem },
            ),
            None => before,
        }
    }
}

/// The processes of a listing, those with the most processor time first. The
/// shares are those of the rows, where both of their texts are numbers; a row
/// without is left out.
pub open spec fn busiest_first(
    rows: Seq<PsRow>,
    shares: Seq<Option<(Share, Share)>>,
    r: Seq<Process>,
) -> bool {
    processes_sorted(rated(rows, shares), r, ProcessSortBy::Cpu, SortDir::Desc)
}

/// The processes of a listing, those with the most processor time first.
pub fn parse_ps_output(rows: &Vec<PsRow>, shares: &Vec<Option<(Share, Share)>>) -> (r: Vec<Process>)
    requires
        rows@.len() == shares@.len(),
    ensures
        busiest_first(rows@, shares@, r@),
{
    let mut list: Vec<Process> = Vec::new();
    let mut i: usize = 0;
    assert(rated(rows@.take(0), shares@.take(0)) =~= list@);
    while i < rows.len()
        invariant
            i <= rows@.len(),
            rows@.len() == shares@.len(),
            list@ == rated(rows@.take(i as int), shares@.take(i as int)),
        decreases rows.len() - i,
    {
        proof {
            assert(rows@.take(i + 1).drop_last() =~= rows@.take(i as int));
            assert(shares@.take(i + 1).drop_last() =~= shares@.take(i as int));
        }
        if let Some((cpu, mem)) = &shares[i] {
            list.push(
                Process {
                    pid: rows[i].pid,
                    name: rows[i].name.clone(),
                    cpu: Share { text: cpu.text.clone(), rank: cpu.rank },
                    mem: Share { text: mem.text.clone(), rank: mem.rank },
                },
            );
        }
        i += 1;
    }
    assert(rows@.take(i as int) =~= rows@);
    assert(shares@.take(i as int) =~= shares@);
    sort_processes(&mut list, ProcessSortBy::Cpu, SortDir::Desc);
    list
}

/// The processes whose name a query matches.
pub fn filtered_processes<'a>(processes: &'a [Process], input: &str) -> (r: Vec<&'a Process>)
    ensures
        items_of(r@) == processes@.filter(|p: Process| query_matches(p.name@, input@)),
{
    let q = Query::new(input);
    let mut flags: Vec<bool> = Vec::new();
    let mut i: usize = 0;
    while i < processes.len()
        invariant
            q.wf(),
            q.text() == input@,
            i <= processes@.len(),
            flags@.len() == i,
            forall|k: int|
                0 <= k < i ==> #[trigger] flags@[k] == query_matches(processes@[k].name@, input@),
        decreases processes.len() - i,
    {
        flags.push(q.matches_text(processes[i].name.as_str()));
        i += 1;
    }
    keep_flagged(processes, &flags, Ghost(|p: Process| query_matches(p.name@, input@)))
}

/// Sorted processes stand in the order of the chosen column: names in lower
/// case, ids and shares as numbers. Processes that are alike in it keep their
/// order, and none is lost.
pub proof fn processes_are_in_order(
    old_list: Seq<Process>,
    new_list: Seq<Process>,
    by: ProcessSortBy,
    dir: SortDir,
)
    requires
        processes_sorted(old_list, new_list, by, dir),
    ensures
        forall|i: int, j: int|
            #![trigger new_list[i], new_list[j]]
            0 <= i < j < new_list.len() ==> {
                let (a, b) = if dir == SortDir::Asc {
                    (new_list[i], new_list[j])
                } else {
                    (new_list[j], new_list[i])
                };
                match by {
                    ProcessSortBy::Name => !text_less(lowercase(b.name@), lowercase(a.name@)),
                    ProcessSortBy::Pid => a.pid <= b.pid,
                    ProcessSortBy::Cpu => a.cpu.rank <= b.cpu.rank,
                    ProcessSortBy::Mem => a.mem.rank <= b.mem.rank,
                }
            },
        old_list.to_multiset() == new_list.to_multiset(),
        keeps_order_of(
            old_list,
            new_list,
            |a: Process, b: Process|
                match by {
                    ProcessSortBy::Name => lowercase(a.name@) == lowercase(b.name@),
                    ProcessSortBy::Pid => a.pid == b.pid,
                    ProcessSortBy::Cpu => a.cpu.rank == b.cpu.rank,
                    ProcessSortBy::Mem => a.mem.rank == b.mem.rank,
                },
        ),
{
    let less = |a: Process, b: Process| process_less(a, b, by, dir);
    let same = |a: Process, b: Process|
        match by {
            ProcessSortBy::Name => lowercase(a.name@) == lowercase(b.name@),
            ProcessSortBy::Pid => a.pid == b.pid,
            ProcessSortBy::Cpu => a.cpu.rank == b.cpu.rank,
            ProcessSortBy::Mem => a.mem.rank == b.mem.rank,
        };
    assert forall|a: Process, b: Process| #[trigger] less(a, b) implies !less(b, a) && !same(
        a,
        b,
    ) by {
        lemma_text_less_total(lowercase(a.name@), lowercase(b.name@));
    }
    sorted_lists_are_in_order(old_list, new_list, less, same);
    assert forall|i: int, j: int| 0 <= i < j < new_list.len() implies !less(
        #[trigger] new_list[j],
        #[trigger] new_list[i],
    ) by {}
}

/// A line of an id, two shares and a name between blanks is the process of that
/// id, whatever its name, which may hold blanks; the shares are kept as printed.
pub proof fn process_lines_are_read(
    pid: nat,
    cpu: Seq<char>,
    mem: Seq<char>,
    name: Seq<char>,
)
    requires
        pid <= u32::MAX,
        cpu.len() > 0,
        forall|i: int| 0 <= i < cpu.len() ==> !is_white(#[trigger] cpu[i]),
        mem.len() > 0,
        forall|i: int| 0 <= i < mem.len() ==> !is_white(#[trigger] mem[i]),
        name.len() > 0,
        !is_white(name[0]),
        !is_white(name.last()),
    ensures
        ps_line(decimal(pid) + seq![' '] + cpu + seq![' '] + mem + seq![' '] + name) == Some(
            PsRowView { pid, cpu_text: cpu, mem_text: mem, name },
        ),
{
    let c = mem + seq![' '] + name;
    let b = cpu + seq![' '] + c;
    let a = decimal(pid) + seq![' '] + b;
    assert(a =~= decimal(pid) + seq![' '] + cpu + seq![' '] + mem + seq![' '] + name);
    numbers_are_read_back(pid, u32::MAX as nat);
    decimals_are_digits(pid);
    assert forall|i: int| 0 <= i < decimal(pid).len() implies !is_white(
        #[trigger] decimal(pid)[i],
    ) by {
        assert(is_digit(decimal(pid)[i]));
    }
    first_words_are_split_off(decimal(pid), b);
    first_words_are_split_off(cpu, c);
    first_words_are_split_off(mem, name);
    assert(name =~= Seq::<char>::empty() + name + Seq::<char>::empty());
    trimming_takes_white_ends_only(seq![], name, seq![]);
}

/// Of the rows of a listing those are processes that have both shares, each of
/// them, in their order.
pub proof fn every_rated_row_is_kept(
    rows: Seq<PsRow>,
    shares: Seq<Option<(Share, Share)>>,
    row: PsRow,
    share: Option<(Share, Share)>,
)
    requires
        rows.len() == shares.len(),
    ensures
        rated(rows.push(row), shares.push(share)) == (match share {
            Some((cpu, mem)) => rated(rows, shares).push(
                Process { pid: row.pid, name: row.name, cpu, mem },
            ),
            None => rated(rows, shares),
        }),
        rated(seq![], seq![]) == Seq::<Process>::empty(),
{
    assert(rows.push(row).drop_last() =~= rows);
    assert(shares.push(share).drop_last() =~= shares);
}

/// Each line gives the row that it holds, if it holds one, and the lines below give
/// theirs.
pub proof fn every_process_line_counts(line: Seq<char>, rest: Seq<char>)
    requires
        !line.contains('\n'),
        line.len() == 0 || line.last() != '\r',
    ensures
        ps_rows_of(line + seq!['\n'] + rest) == (match ps_line(line) {
            Some(x) => seq![x],
            None => seq![],
        }) + ps_rows_of(rest),
        ps_rows_of(seq![]) == Seq::<PsRowView>::empty(),
{
    let f = |l: Seq<char>| ps_line(l);
    assert forall|i: int| 0 <= i < line.len() implies #[trigger] line[i] != '\n' by {
        assert(line.contains(line[i]));
    }
    crate::text::lines_end_at_line_feeds(line, rest);
    crate::filtering::every_readable_item_is_read(seq![], line, lines(rest), f);
    assert(Seq::<Seq<char>>::empty() + seq![line] + lines(rest) =~= seq![line] + lines(rest));
    assert(mapped_some(Seq::<Seq<char>>::empty(), f) =~= seq![]);
    assert(ps_rows_of(line + seq!['\n'] + rest) =~= (match ps_line(line) {
        Some(x) => seq![x],
        None => seq![],
    }) + ps_rows_of(rest));
}

/// Of the processes of a listing none is lost, and none stands above one that
/// takes more processor time.
pub proof fn the_busiest_come_first(
    rows: Seq<PsRow>,
    shares: Seq<Option<(Share, Share)>>,
    r: Seq<Process>,
)
    requires
        busiest_first(rows, shares, r),
    ensures
        r.to_multiset() == rated(rows, shares).to_multiset(),
        forall|i: int, j: int|
            0 <= i < j < r.len() ==> (#[trigger] r[i]).cpu.rank >= (#[trigger] r[j]).cpu.rank,
{
    processes_are_in_order(rated(rows, shares), r, ProcessSortBy::Cpu, SortDir::Desc);
}

} // verus!
