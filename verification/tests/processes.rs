use rho::entry::SortDir;
use rho::process::{Process, ProcessSortBy, Share, filtered_processes, parse_ps_output, parse_ps_rows, sort_processes};

/// A share with the rank that orders it: the bits of a number that is not
/// negative grow with it.
fn share(value: f32) -> Share {
    Share { text: format!("{:.1}", value), rank: value.to_bits() as i64 }
}

fn mk_proc(name: &str, pid: u32, cpu: f32, mem: f32) -> Process {
    Process { pid, name: name.to_string(), cpu: share(cpu), mem: share(mem) }
}

/// The processes of a listing, with the shares that its texts denote.
fn listed(stdout: &str) -> Vec<Process> {
    let rows = parse_ps_rows(stdout);
    let shares: Vec<Option<(Share, Share)>> = rows
        .iter()
        .map(|row| match (row.cpu_text.parse::<f32>(), row.mem_text.parse::<f32>()) {
            (Ok(cpu), Ok(mem)) => Some((share(cpu), share(mem))),
            _ => None,
        })
        .collect();
    parse_ps_output(&rows, &shares)
}

#[test]
fn parse_ps_output_basic_sorted_by_cpu_desc() {
    // Note: kernel-like names in brackets ([kthreadd]) should pass too.
    let stdout = "  100 0.5 1.0 bash\n  101 12.3 4.5 chrome\n  102 0.0 0.1 [kthreadd]\n";
    let out = listed(stdout);
    assert_eq!(out.len(), 3);
    // Sort by CPU desc.
    assert_eq!(out[0].name, "chrome");
    assert_eq!(out[0].pid, 101);
    assert!((out[0].cpu.text.parse::<f32>().unwrap() - 12.3).abs() < 1e-3);
    assert!((out[0].mem.text.parse::<f32>().unwrap() - 4.5).abs() < 1e-3);
    assert_eq!(out[1].name, "bash");
    assert_eq!(out[2].name, "[kthreadd]");
}

#[test]
fn parse_ps_output_handles_name_with_spaces() {
    // On macOS `comm` can contain spaces (e.g. "Google Chrome"). The
    // parser must put the command-name column last so any spaces stay
    // inside it.
    let stdout = "  100 1.0 2.0 Google Chrome Helper (Renderer)\n";
    let out = listed(stdout);
    assert_eq!(out.len(), 1);
    assert_eq!(out[0].name, "Google Chrome Helper (Renderer)");
}

#[test]
fn parse_ps_output_skips_malformed_lines() {
    let stdout = "garbage\n  100 1.0 2.0 valid\nnotanint x x x\n";
    let out = listed(stdout);
    // Only the valid row survives.
    assert_eq!(out.len(), 1);
    assert_eq!(out[0].name, "valid");
}

#[test]
fn parse_ps_output_empty_returns_empty() {
    assert!(listed("").is_empty());
    assert!(listed("\n").is_empty());
}

#[test]
fn filtered_processes_substring_matches_name() {
    let procs = vec![
        mk_proc("bash", 1, 0.0, 0.0),
        mk_proc("chrome", 2, 0.0, 0.0),
    ];
    let out = filtered_processes(&procs, "rome");
    assert_eq!(out.len(), 1);
    assert_eq!(out[0].name, "chrome");
    // Empty filter returns everything.
    assert_eq!(filtered_processes(&procs, "").len(), 2);
    // No match.
    assert!(filtered_processes(&procs, "zzz").is_empty());
}

#[test]
fn filtered_processes_is_case_insensitive() {
    let procs = vec![mk_proc("Chrome", 1, 0.0, 0.0)];
    assert_eq!(filtered_processes(&procs, "CHROME").len(), 1);
}

#[test]
fn sort_processes_by_cpu_desc() {
    let mut v = vec![
        mk_proc("bash", 100, 0.5, 1.0),
        mk_proc("chrome", 101, 12.3, 4.5),
        mk_proc("kthread", 102, 0.0, 0.1),
    ];
    sort_processes(&mut v, ProcessSortBy::Cpu, SortDir::Desc);
    assert_eq!(v[0].name, "chrome");
    assert_eq!(v[1].name, "bash");
    assert_eq!(v[2].name, "kthread");
}

#[test]
fn sort_processes_by_cpu_asc_is_reverse() {
    let mut v = vec![
        mk_proc("bash", 100, 0.5, 1.0),
        mk_proc("chrome", 101, 12.3, 4.5),
    ];
    sort_processes(&mut v, ProcessSortBy::Cpu, SortDir::Asc);
    assert_eq!(v[0].name, "bash");
    assert_eq!(v[1].name, "chrome");
}

#[test]
fn sort_processes_by_mem_desc() {
    let mut v = vec![
        mk_proc("a", 1, 0.0, 1.0),
        mk_proc("b", 2, 0.0, 10.5),
        mk_proc("c", 3, 0.0, 5.0),
    ];
    sort_processes(&mut v, ProcessSortBy::Mem, SortDir::Desc);
    assert_eq!(v[0].name, "b");
    assert_eq!(v[1].name, "c");
    assert_eq!(v[2].name, "a");
}

#[test]
fn sort_processes_by_pid_desc() {
    let mut v = vec![
        mk_proc("a", 100, 0.0, 0.0),
        mk_proc("b", 50, 0.0, 0.0),
        mk_proc("c", 200, 0.0, 0.0),
    ];
    sort_processes(&mut v, ProcessSortBy::Pid, SortDir::Desc);
    assert_eq!(v[0].pid, 200);
    assert_eq!(v[1].pid, 100);
    assert_eq!(v[2].pid, 50);
}

#[test]
fn sort_processes_by_name_case_insensitive() {
    let mut v = vec![
        mk_proc("Bravo", 1, 0.0, 0.0),
        mk_proc("alpha", 2, 0.0, 0.0),
        mk_proc("Charlie", 3, 0.0, 0.0),
    ];
    sort_processes(&mut v, ProcessSortBy::Name, SortDir::Asc);
    assert_eq!(v[0].name, "alpha");
    assert_eq!(v[1].name, "Bravo");
    assert_eq!(v[2].name, "Charlie");
}
