//! How copies, moves and deletions are carried out between local disks, ssh
//! hosts and the Dropbox account.

use vstd::prelude::*;
use crate::dropbox::{api_path, child_path, dropbox_api_path, join_dropbox, path_body, path_json};
use crate::dropbox::{api_path_is_anchored, json_quoted, transfer_body, transfer_json};
use crate::location::{backend_kind, show_location, BackendId, BackendKind, Location, LocationView};
use crate::message::Outcome;
use crate::palette::Platform;
use crate::path::{components, file_name, file_name_is_last_component, file_name_of, is_plain_name};
use crate::path::{join_path, join_paths, join_then_parent};
use crate::quoting::{build_sftp_get_script, build_sftp_put_script, posix_quote, quote_remote_path};
use crate::quoting::{quote_sftp_path, quoted, remote_quoted, sftp_quoted};
use crate::text::{concat2, same_text, string_from, texts};

verus! {

/// Which transport a location is reached by.
pub enum Transport {
    Local,
    Ssh(BackendId),
    Dropbox,
}

/// A transport as plain values.
pub enum TransportView {
    Local,
    Ssh(Seq<char>),
    Dropbox,
}

impl View for Transport {
    type V = TransportView;

    open spec fn view(&self) -> TransportView {
        match self {
            Transport::Local => TransportView::Local,
            Transport::Ssh(b) => TransportView::Ssh(b@),
            Transport::Dropbox => TransportView::Dropbox,
        }
    }
}

/// Which transport a location is reached by.
pub open spec fn transport_of(l: LocationView) -> TransportView {
    match l {
        LocationView::Local(_) => TransportView::Local,
        LocationView::Remote { backend, .. } => match backend_kind(backend) {
            BackendKind::Dropbox => TransportView::Dropbox,
            BackendKind::Ssh => TransportView::Ssh(backend),
        },
    }
}

/// Which transport a location is reached by.
pub fn transport(loc: &Location) -> (r: Transport)
    ensures
        r@ == transport_of(loc@),
{
    match loc {
        Location::Local(_) => Transport::Local,
        Location::Remote { backend, .. } => if backend.is_dropbox() {
            Transport::Dropbox
        } else {
            Transport::Ssh(backend.clone())
        },
    }
}

/// One thing to be done outside, with its texts.
#[derive(Debug)]
#[allow(inconsistent_fields)]
pub enum Step<S> {
    /// Copy a file or directory tree on the local disk.
    CopyLocal { src: S, dst: S },
    /// Rename on the local disk, or copy and delete across file systems.
    MoveLocal { src: S, dst: S },
    DeleteLocal(S),
    /// Run an sftp batch on a host.
    Sftp { backend: S, script: S },
    /// Run a command on a host.
    Ssh { backend: S, command: S },
    /// Call an endpoint of the Dropbox API.
    DropboxCall { endpoint: S, body: S },
    /// Send a local file or directory tree to an API path.
    DropboxUpload { local: S, api: S },
    /// Fetch an API path to a local file or directory tree.
    DropboxDownload { api: S, local: S },
    /// Pass the source from one host to another, through a directory made for
    /// it here.
    Relay { from: S, to: S },
    /// Fetch the source into a directory made for it, send it on from there,
    /// and remove that directory.
    Stage,
}

/// A step as plain values.
pub open spec fn step_view(s: Step<String>) -> Step<Seq<char>> {
    match s {
        Step::CopyLocal { src, dst } => Step::CopyLocal { src: src@, dst: dst@ },
        Step::MoveLocal { src, dst } => Step::MoveLocal { src: src@, dst: dst@ },
        Step::DeleteLocal(p) => Step::DeleteLocal(p@),
        Step::Sftp { backend, script } => Step::Sftp { backend: backend@, script: script@ },
        Step::Ssh { backend, command } => Step::Ssh { backend: backend@, command: command@ },
        Step::DropboxCall { endpoint, body } => Step::DropboxCall {
            endpoint: endpoint@,
            body: body@,
        },
        Step::DropboxUpload { local, api } => Step::DropboxUpload { local: local@, api: api@ },
        Step::DropboxDownload { api, local } => Step::DropboxDownload { api: api@, local: local@ },
        Step::Relay { from, to } => Step::Relay { from: from@, to: to@ },
        Step::Stage => Step::Stage,
    }
}

/// What is to be done for one source, or why nothing can be.
pub type Plan<S> = Result<Step<S>, S>;

/// A plan as plain values.
pub open spec fn plan_view(p: Plan<String>) -> Plan<Seq<char>> {
    match p {
        Ok(s) => Ok(step_view(s)),
        Err(e) => Err(e@),
    }
}

fn copy_of_plan(p: &Plan<String>) -> (r: Plan<String>)
    ensures
        plan_view(r) == plan_view(*p),
{
    match p {
        Err(e) => Err(e.clone()),
        Ok(step) => Ok(
            match step {
                Step::CopyLocal { src, dst } => Step::CopyLocal {
                    src: src.clone(),
                    dst: dst.clone(),
                },
                Step::MoveLocal { src, dst } => Step::MoveLocal {
                    src: src.clone(),
                    dst: dst.clone(),
                },
                Step::DeleteLocal(p) => Step::DeleteLocal(p.clone()),
                Step::Sftp { backend, script } => Step::Sftp {
                    backend: backend.clone(),
                    script: script.clone(),
                },
                Step::Ssh { backend, command } => Step::Ssh {
                    backend: backend.clone(),
                    command: command.clone(),
                },
                Step::DropboxCall { endpoint, body } => Step::DropboxCall {
                    endpoint: endpoint.clone(),
                    body: body.clone(),
                },
                Step::DropboxUpload { local, api } => Step::DropboxUpload {
                    local: local.clone(),
                    api: api.clone(),
                },
                Step::DropboxDownload { api, local } => Step::DropboxDownload {
                    api: api.clone(),
                    local: local.clone(),
                },
                Step::Relay { from, to } => Step::Relay { from: from.clone(), to: to.clone() },
                Step::Stage => Step::Stage,
            },
        ),
    }
}

/// What goes before a text that names no file.
pub open spec fn no_name() -> Seq<char> {
    "source has no file name"@
}

/// How a local source is copied or moved into a local directory.
pub open spec fn local_plan(src: LocationView, dst_dir: Seq<char>, moving: bool) -> Plan<Seq<char>> {
    match src {
        LocationView::Local(p) => match file_name(p) {
            Some(name) => if moving {
                Ok(Step::MoveLocal { src: p, dst: join_path(dst_dir, name) })
            } else {
                Ok(Step::CopyLocal { src: p, dst: join_path(dst_dir, name) })
            },
            None => Err(no_name()),
        },
        _ => Err("expected local source"@),
    }
}

/// The batch that sends a local file into a directory of a host.
pub open spec fn put_script(local: Seq<char>, dst: Seq<char>) -> Seq<char> {
    "put -r "@ + quoted(local) + " "@ + sftp_quoted(dst) + "\n"@
}

/// The batch that fetches a file of a host into a local directory.
pub open spec fn get_script(remote: Seq<char>, local_dir: Seq<char>) -> Seq<char> {
    "get -r "@ + sftp_quoted(remote) + " "@ + quoted(local_dir) + "\n"@
}

/// The command that copies or moves on a host.
pub open spec fn host_command(src: Seq<char>, dst: Seq<char>, moving: bool) -> Seq<char> {
    (if moving {
        "mv -- "@
    } else {
        "cp -r -- "@
    }) + remote_quoted(src) + " "@ + remote_quoted(dst)
}

/// How a Dropbox source is copied or moved into a Dropbox folder.
pub open spec fn account_plan(src: LocationView, dst: Seq<char>, moving: bool) -> Plan<Seq<char>> {
    match src {
        LocationView::Remote { path, .. } => match file_name(path) {
            Some(name) => Ok(
                Step::DropboxCall {
                    endpoint: if moving {
                        "files/move_v2"@
                    } else {
                        "files/copy_v2"@
                    },
                    body: transfer_json(api_path(path), child_path(api_path(dst), name)),
                },
            ),
            None => Err(no_name()),
        },
        _ => Err("expected dropbox source"@),
    }
}

/// How one source of a batch is copied. All sources of a batch are reached by
/// the transport of its first one.
pub open spec fn copy_plan(
    by: TransportView,
    src: LocationView,
    dst: LocationView,
) -> Plan<Seq<char>> {
    match (by, transport_of(dst)) {
        (TransportView::Local, TransportView::Local) => local_plan(src, dst.path(), false),
        (TransportView::Local, TransportView::Ssh(host)) => match src {
            LocationView::Local(p) => Ok(
                Step::Sftp { backend: host, script: put_script(p, dst.path()) },
            ),
            _ => Err("expected local source"@),
        },
        (TransportView::Local, TransportView::Dropbox) => match src {
            LocationView::Local(p) => match file_name(p) {
                Some(name) => Ok(
                    Step::DropboxUpload { local: p, api: child_path(api_path(dst.path()), name) },
                ),
                None => Err(no_name()),
            },
            _ => Err("expected local source"@),
        },
        (TransportView::Ssh(host), TransportView::Local) => match src {
            LocationView::Remote { path, .. } => Ok(
                Step::Sftp { backend: host, script: get_script(path, dst.path()) },
            ),
            _ => Err("expected remote source"@),
        },
        (TransportView::Dropbox, TransportView::Local) => match src {
            LocationView::Remote { path, .. } => match file_name(path) {
                Some(name) => Ok(
                    Step::DropboxDownload { api: api_path(path), local: join_path(dst.path(), name) },
                ),
                None => Err(no_name()),
            },
            _ => Err("expected dropbox source"@),
        },
        (TransportView::Ssh(a), TransportView::Ssh(b)) => match src {
            LocationView::Remote { path, .. } => if a == b {
                Ok(Step::Ssh { backend: a, command: host_command(path, dst.path(), false) })
            } else {
                Ok(Step::Relay { from: a, to: b })
            },
            _ => Err("expected remote source"@),
        },
        (TransportView::Dropbox, TransportView::Dropbox) => account_plan(src, dst.path(), false),
        _ => Ok(Step::Stage),
    }
}

/// How one source is moved: within one backend at once, else the copy comes
/// first and the source is deleted after it.
pub open spec fn moves_at_once(by: TransportView, dst: LocationView) -> bool {
    match (by, transport_of(dst)) {
        (TransportView::Local, TransportView::Local) => true,
        (TransportView::Ssh(a), TransportView::Ssh(b)) => a == b,
        (TransportView::Dropbox, TransportView::Dropbox) => true,
        _ => false,
    }
}

/// How one source of a batch is moved within one backend.
pub open spec fn move_plan(
    by: TransportView,
    src: LocationView,
    dst: LocationView,
) -> Plan<Seq<char>> {
    match by {
        TransportView::Local => local_plan(src, dst.path(), true),
        TransportView::Ssh(host) => match src {
            LocationView::Remote { path, .. } => Ok(
                Step::Ssh { backend: host, command: host_command(path, dst.path(), true) },
            ),
            _ => Err("expected remote source"@),
        },
        TransportView::Dropbox => account_plan(src, dst.path(), true),
    }
}

/// How one location is deleted.
pub open spec fn delete_plan(loc: LocationView) -> Step<Seq<char>> {
    match loc {
        LocationView::Local(p) => Step::DeleteLocal(p),
        LocationView::Remote { backend, path } => match backend_kind(backend) {
            BackendKind::Dropbox => Step::DropboxCall {
                endpoint: "files/delete_v2"@,
                body: path_json(api_path(path)),
            },
            BackendKind::Ssh => Step::Ssh { backend, command: "rm -rf -- "@ + remote_quoted(path) },
        },
    }
}

/// How one source is copied or moved to exactly a path: within one backend
/// only.
pub open spec fn exact_plan(src: LocationView, dst: LocationView, moving: bool) -> Plan<Seq<char>> {
    match (transport_of(src), transport_of(dst)) {
        (TransportView::Local, TransportView::Local) => if moving {
            Ok(Step::MoveLocal { src: src.path(), dst: dst.path() })
        } else {
            Ok(Step::CopyLocal { src: src.path(), dst: dst.path() })
        },
        (TransportView::Dropbox, TransportView::Dropbox) => Ok(
            Step::DropboxCall {
                endpoint: if moving {
                    "files/move_v2"@
                } else {
                    "files/copy_v2"@
                },
                body: transfer_json(api_path(src.path()), api_path(dst.path())),
            },
        ),
        (TransportView::Ssh(a), TransportView::Ssh(b)) => if a == b {
            Ok(Step::Ssh { backend: a, command: host_command(src.path(), dst.path(), moving) })
        } else {
            Err("a new name must be on the same backend"@)
        },
        _ => Err("a new name must be on the same backend"@),
    }
}

/// A copy takes nothing away from where it is: no step moves or deletes on the
/// disk, and none moves or deletes on a host or in the account.
pub proof fn copies_take_nothing_away(by: TransportView, src: LocationView, dst: LocationView)
    ensures
        copy_plan(by, src, dst) matches Ok(s) ==> match s {
            Step::DeleteLocal(_) => false,
            Step::MoveLocal { .. } => false,
            Step::Ssh { command, .. } => "cp -r -- "@.is_prefix_of(command),
            Step::DropboxCall { endpoint, .. } => endpoint == "files/copy_v2"@,
            _ => true,
        },
{
    if let (TransportView::Ssh(a), TransportView::Ssh(b)) = (by, transport_of(dst)) {
        if let LocationView::Remote { path, .. } = src {
            let head = "cp -r -- "@;
            let whole = host_command(path, dst.path(), false);
            assert(whole.take(head.len() as int) =~= head);
            assert(head.is_prefix_of(whole)) by {
                assert(head =~= whole.subrange(0, head.len() as int));
            }
        }
    }
}

fn fail(text: &str) -> (r: Plan<String>)
    ensures
        plan_view(r) == Err::<Step<Seq<char>>, Seq<char>>(text@),
{
    Err(string_from(text))
}

fn plan_local(src: &Location, dst_dir: &str, moving: bool) -> (r: Plan<String>)
    ensures
        plan_view(r) == local_plan(src@, dst_dir@, moving),
{
    match src {
        Location::Local(p) => match file_name_of(p.as_str()) {
            Some(name) => {
                let dst = join_paths(dst_dir, name.as_str());
                if moving {
                    Ok(Step::MoveLocal { src: p.clone(), dst })
                } else {
                    Ok(Step::CopyLocal { src: p.clone(), dst })
                }
            },
            None => fail("source has no file name"),
        },
        Location::Remote { .. } => fail("expected local source"),
    }
}

fn plan_put(local: &str, host: &BackendId, dst: &str) -> (r: Step<String>)
    ensures
        step_view(r) == (Step::Sftp { backend: host@, script: put_script(local@, dst@) }),
{
    let l = posix_quote(local);
    let d = quote_sftp_path(dst);
    Step::Sftp {
        backend: string_from(host.as_str()),
        script: build_sftp_put_script(l.as_str(), d.as_str()),
    }
}

fn plan_get(remote: &str, host: &BackendId, local_dir: &str) -> (r: Step<String>)
    ensures
        step_view(r) == (Step::Sftp { backend: host@, script: get_script(remote@, local_dir@) }),
{
    let s = quote_sftp_path(remote);
    let l = posix_quote(local_dir);
    Step::Sftp {
        backend: string_from(host.as_str()),
        script: build_sftp_get_script(s.as_str(), l.as_str()),
    }
}

fn plan_host(src: &str, host: &BackendId, dst: &str, moving: bool) -> (r: Step<String>)
    ensures
        step_view(r) == (Step::Ssh { backend: host@, command: host_command(src@, dst@, moving) }),
{
    let s = quote_remote_path(src);
    let d = quote_remote_path(dst);
    let mut command = string_from(
        if moving {
            "mv -- "
        } else {
            "cp -r -- "
        },
    );
    command.push_str(s.as_str());
    command.push_str(" ");
    command.push_str(d.as_str());
    Step::Ssh { backend: string_from(host.as_str()), command }
}

fn transfer_endpoint(moving: bool) -> (r: String)
    ensures
        r@ == (if moving {
            "files/move_v2"@
        } else {
            "files/copy_v2"@
        }),
{
    string_from(
        if moving {
            "files/move_v2"
        } else {
            "files/copy_v2"
        },
    )
}

fn plan_account(src: &Location, dst: &str, moving: bool) -> (r: Plan<String>)
    ensures
        plan_view(r) == account_plan(src@, dst@, moving),
{
    match src {
        Location::Remote { path, .. } => match file_name_of(path.as_str()) {
            Some(name) => {
                let dir = dropbox_api_path(dst);
                let from = dropbox_api_path(path.as_str());
                let to = join_dropbox(dir.as_str(), name.as_str());
                Ok(
                    Step::DropboxCall {
                        endpoint: transfer_endpoint(moving),
                        body: transfer_body(from.as_str(), to.as_str()),
                    },
                )
            },
            None => fail("source has no file name"),
        },
        Location::Local(_) => fail("expected dropbox source"),
    }
}

/// How one source of a batch is copied.
pub fn plan_copy_one(by: &Transport, src: &Location, dst: &Location) -> (r: Plan<String>)
    ensures
        plan_view(r) == copy_plan(by@, src@, dst@),
{
    let to = transport(dst);
    match (by, &to) {
        (Transport::Local, Transport::Local) => plan_local(src, dst.path(), false),
        (Transport::Local, Transport::Ssh(host)) => match src {
            Location::Local(p) => Ok(plan_put(p.as_str(), host, dst.path())),
            Location::Remote { .. } => fail("expected local source"),
        },
        (Transport::Local, Transport::Dropbox) => match src {
            Location::Local(p) => match file_name_of(p.as_str()) {
                Some(name) => {
                    let dir = dropbox_api_path(dst.path());
                    Ok(
                        Step::DropboxUpload {
                            local: p.clone(),
                            api: join_dropbox(dir.as_str(), name.as_str()),
                        },
                    )
                },
                None => fail("source has no file name"),
            },
            Location::Remote { .. } => fail("expected local source"),
        },
        (Transport::Ssh(host), Transport::Local) => match src {
            Location::Remote { path, .. } => Ok(plan_get(path.as_str(), host, dst.path())),
            Location::Local(_) => fail("expected remote source"),
        },
        (Transport::Dropbox, Transport::Local) => match src {
            Location::Remote { path, .. } => match file_name_of(path.as_str()) {
                Some(name) => Ok(
                    Step::DropboxDownload {
                        api: dropbox_api_path(path.as_str()),
                        local: join_paths(dst.path(), name.as_str()),
                    },
                ),
                None => fail("source has no file name"),
            },
            Location::Local(_) => fail("expected dropbox source"),
        },
        (Transport::Ssh(a), Transport::Ssh(b)) => match src {
            Location::Remote { path, .. } => if same_text(a.as_str(), b.as_str()) {
                Ok(plan_host(path.as_str(), a, dst.path(), false))
            } else {
                Ok(
                    Step::Relay { from: string_from(a.as_str()), to: string_from(b.as_str()) },
                )
            },
            Location::Local(_) => fail("expected remote source"),
        },
        (Transport::Dropbox, Transport::Dropbox) => plan_account(src, dst.path(), false),
        _ => Ok(Step::Stage),
    }
}

/// How one location is deleted.
pub fn delete_one(loc: &Location) -> (r: Step<String>)
    ensures
        step_view(r) == delete_plan(loc@),
{
    match loc {
        Location::Local(p) => Step::DeleteLocal(p.clone()),
        Location::Remote { backend, path } => if backend.is_dropbox() {
            let api = dropbox_api_path(path.as_str());
            Step::DropboxCall {
                endpoint: string_from("files/delete_v2"),
                body: path_body(api.as_str()),
            }
        } else {
            let q = quote_remote_path(path.as_str());
            Step::Ssh {
                backend: string_from(backend.as_str()),
                command: concat2("rm -rf -- ", q.as_str()),
            }
        },
    }
}

fn move_within(by: &Transport, dst: &Location) -> (r: bool)
    ensures
        r == moves_at_once(by@, dst@),
{
    let to = transport(dst);
    match (by, &to) {
        (Transport::Local, Transport::Local) => true,
        (Transport::Ssh(a), Transport::Ssh(b)) => same_text(a.as_str(), b.as_str()),
        (Transport::Dropbox, Transport::Dropbox) => true,
        _ => false,
    }
}

fn plan_move_one(by: &Transport, src: &Location, dst: &Location) -> (r: Plan<String>)
    ensures
        plan_view(r) == move_plan(by@, src@, dst@),
{
    match by {
        Transport::Local => plan_local(src, dst.path(), true),
        Transport::Ssh(host) => match src {
            Location::Remote { path, .. } => Ok(plan_host(path.as_str(), host, dst.path(), true)),
            Location::Local(_) => fail("expected remote source"),
        },
        Transport::Dropbox => plan_account(src, dst.path(), true),
    }
}

/// What is to be done for one source of a batch: the step, and whether the
/// source is deleted once it has succeeded.
pub struct Job {
    pub source: Location,
    pub plan: Plan<String>,
    pub then_delete: bool,
}

/// The jobs of a copy: one for each source, in order, by the way that the first
/// source takes.
pub open spec fn copies_planned(srcs: Seq<Location>, dst: LocationView, jobs: Seq<Job>) -> bool {
    &&& jobs.len() == srcs.len()
    &&& forall|i: int|
        0 <= i < jobs.len() ==> {
            let job = #[trigger] jobs[i];
            &&& job.source == srcs[i]
            &&& !job.then_delete
            &&& plan_view(job.plan) == copy_plan(transport_of(srcs[0]@), srcs[i]@, dst)
        }
}

/// The jobs of a move: within one backend a move of each source; otherwise a
/// copy, after which that source is deleted.
pub open spec fn moves_planned(srcs: Seq<Location>, dst: LocationView, jobs: Seq<Job>) -> bool {
    &&& jobs.len() == srcs.len()
    &&& forall|i: int|
        0 <= i < jobs.len() ==> {
            let job = #[trigger] jobs[i];
            let by = transport_of(srcs[0]@);
            &&& job.source == srcs[i]
            &&& job.then_delete == !moves_at_once(by, dst)
            &&& plan_view(job.plan) == (if moves_at_once(by, dst) {
                move_plan(by, srcs[i]@, dst)
            } else {
                copy_plan(by, srcs[i]@, dst)
            })
        }
}

/// The jobs of a copy: one for each source, in order.
pub fn run_copy(srcs: Vec<Location>, dst: &Location) -> (r: Vec<Job>)
    ensures
        copies_planned(srcs@, dst@, r@),
{
    let mut r: Vec<Job> = Vec::new();
    if srcs.len() == 0 {
        return r;
    }
    let by = transport(&srcs[0]);
    let mut i: usize = 0;
    while i < srcs.len()
        invariant
            i <= srcs@.len(),
            srcs@.len() > 0,
            by@ == transport_of(srcs@[0]@),
            r@.len() == i,
            forall|k: int|
                0 <= k < i ==> {
                    let job = #[trigger] r@[k];
                    &&& job.source == srcs@[k]
                    &&& !job.then_delete
                    &&& plan_view(job.plan) == copy_plan(by@, srcs@[k]@, dst@)
                },
        decreases srcs.len() - i,
    {
        let plan = plan_copy_one(&by, &srcs[i], dst);
        r.push(Job { source: srcs[i].clone(), plan, then_delete: false });
        i += 1;
    }
    r
}

/// The jobs of a move: within one backend a move of each source; otherwise a
/// copy, after which that source is deleted.
pub fn run_move(srcs: Vec<Location>, dst: &Location) -> (r: Vec<Job>)
    ensures
        moves_planned(srcs@, dst@, r@),
{
    let mut r: Vec<Job> = Vec::new();
    if srcs.len() == 0 {
        return r;
    }
    let by = transport(&srcs[0]);
    let within: bool = move_within(&by, dst);
    let mut i: usize = 0;
    while i < srcs.len()
        invariant
            i <= srcs@.len(),
            srcs@.len() > 0,
            by@ == transport_of(srcs@[0]@),
            within == moves_at_once(by@, dst@),
            r@.len() == i,
            forall|k: int|
                0 <= k < i ==> {
                    let job = #[trigger] r@[k];
                    &&& job.source == srcs@[k]
                    &&& job.then_delete == !within
                    &&& plan_view(job.plan) == (if within {
                        move_plan(by@, srcs@[k]@, dst@)
                    } else {
                        copy_plan(by@, srcs@[k]@, dst@)
                    })
                },
        decreases srcs.len() - i,
    {
        let plan = if within {
            plan_move_one(&by, &srcs[i], dst)
        } else {
            plan_copy_one(&by, &srcs[i], dst)
        };
        r.push(Job { source: srcs[i].clone(), plan, then_delete: !within });
        i += 1;
    }
    r
}

/// The jobs of a deletion: one for each location, in order.
pub open spec fn deletions_planned(srcs: Seq<Location>, jobs: Seq<Job>) -> bool {
    &&& jobs.len() == srcs.len()
    &&& forall|i: int|
        0 <= i < jobs.len() ==> {
            let job = #[trigger] jobs[i];
            &&& job.source == srcs[i]
            &&& !job.then_delete
            &&& plan_view(job.plan) == Ok::<Step<Seq<char>>, Seq<char>>(delete_plan(srcs[i]@))
        }
}

/// The jobs of a deletion: one for each location, in order.
pub fn run_delete(srcs: Vec<Location>) -> (r: Vec<Job>)
    ensures
        deletions_planned(srcs@, r@),
{
    let mut r: Vec<Job> = Vec::new();
    let mut i: usize = 0;
    while i < srcs.len()
        invariant
            i <= srcs@.len(),
            r@.len() == i,
            forall|k: int|
                0 <= k < i ==> {
                    let job = #[trigger] r@[k];
                    &&& job.source == srcs@[k]
                    &&& !job.then_delete
                    &&& plan_view(job.plan) == Ok::<Step<Seq<char>>, Seq<char>>(
                        delete_plan(srcs@[k]@),
                    )
                },
        decreases srcs.len() - i,
    {
        let plan: Plan<String> = Ok(delete_one(&srcs[i]));
        r.push(Job { source: srcs[i].clone(), plan, then_delete: false });
        i += 1;
    }
    r
}

/// How something ended, as plain values.
pub open spec fn result_view(r: Result<(), String>) -> Result<(), Seq<char>> {
    match r {
        Ok(_) => Ok(()),
        Err(e) => Err(e@),
    }
}

/// What follows once the step of a job has ended.
#[derive(Debug)]
pub enum Followup<S> {
    /// The source is deleted; how that ends is the outcome.
    Delete(Step<S>),
    /// This is the outcome.
    Done(Result<(), S>),
}

/// What follows, as plain values.
pub open spec fn followup_view(f: Followup<String>) -> Followup<Seq<char>> {
    match f {
        Followup::Delete(s) => Followup::Delete(step_view(s)),
        Followup::Done(r) => Followup::Done(result_view(r)),
    }
}

/// What follows the end of a job's step: a source that is to be deleted is
/// deleted where the step succeeded, and only there.
pub open spec fn followed(job: Job, result: Result<(), Seq<char>>) -> Followup<Seq<char>> {
    if job.then_delete && result is Ok {
        Followup::Delete(delete_plan(job.source@))
    } else {
        Followup::Done(result)
    }
}

/// What follows the end of a job's step.
pub fn after_step(job: &Job, result: Result<(), String>) -> (r: Followup<String>)
    ensures
        followup_view(r) == followed(*job, result_view(result)),
{
    match result {
        Ok(()) => if job.then_delete {
            Followup::Delete(delete_one(&job.source))
        } else {
            Followup::Done(Ok(()))
        },
        Err(e) => Followup::Done(Err(e)),
    }
}

/// How the step of a job ended, where `stepped` is how it ended if there was
/// one: a job without a step fails as its plan says.
pub open spec fn attempted(job: Job, stepped: Result<(), Seq<char>>) -> Result<(), Seq<char>> {
    match plan_view(job.plan) {
        Ok(_) => stepped,
        Err(e) => Err(e),
    }
}

/// The outcome of a job, where `stepped` is how its step ended, and `deleted`
/// how the deletion of its source ended if there was one.
pub open spec fn outcome(
    job: Job,
    stepped: Result<(), Seq<char>>,
    deleted: Result<(), Seq<char>>,
) -> Result<(), Seq<char>> {
    match followed(job, attempted(job, stepped)) {
        Followup::Delete(_) => deleted,
        Followup::Done(r) => r,
    }
}

/// The jobs of a batch, and how far it is. Whoever carries it out asks for the
/// next step, performs it and reports how it ended.
pub struct Batch {
    jobs: Vec<Job>,
    deleting: bool,
    results: Vec<Outcome>,
}

/// How each finished job ended: its source as text, and its outcome.
pub open spec fn outcome_views(v: Seq<Outcome>) -> Seq<(Seq<char>, Result<(), Seq<char>>)> {
    Seq::new(v.len(), |i: int| (v[i].0@, result_view(v[i].1)))
}

impl Batch {
    pub closed spec fn jobs(&self) -> Seq<Job> {
        self.jobs@
    }

    /// The source of the current job is being deleted.
    pub closed spec fn deleting(&self) -> bool {
        self.deleting
    }

    /// The jobs that have ended.
    pub closed spec fn results(&self) -> Seq<(Seq<char>, Result<(), Seq<char>>)> {
        outcome_views(self.results@)
    }

    /// The place of the current job.
    pub open spec fn at(&self) -> int {
        self.results().len() as int
    }

    /// No more jobs have ended than there are, and the last of them is not
    /// being deleted from.
    pub open spec fn wf(&self) -> bool {
        &&& self.at() <= self.jobs().len()
        &&& self.deleting() ==> self.at() < self.jobs().len()
    }

    /// What is to be done now: the step of the current job, the deletion of its
    /// source, or nothing where the plan of the job has failed already.
    pub open spec fn due(&self) -> Plan<Seq<char>> {
        let job = self.jobs()[self.at()];
        if self.deleting() {
            Ok(delete_plan(job.source@))
        } else {
            plan_view(job.plan)
        }
    }

    /// The batch has moved on, where what was due ended like this.
    pub open spec fn advanced(&self, o: Batch, result: Result<(), Seq<char>>) -> bool {
        let job = o.jobs()[o.at()];
        &&& self.jobs() == o.jobs()
        &&& if o.deleting() {
            &&& !self.deleting()
            &&& self.results() == o.results().push((show_location(job.source@), result))
        } else {
            match followed(job, result) {
                Followup::Delete(_) => self.deleting() && self.results() == o.results(),
                Followup::Done(r) => {
                    &&& !self.deleting()
                    &&& self.results() == o.results().push((show_location(job.source@), r))
                },
            }
        }
    }

    pub fn new(jobs: Vec<Job>) -> (r: Batch)
        ensures
            r.jobs() == jobs@,
            !r.deleting(),
            r.results().len() == 0,
            r.wf(),
    {
        Batch { jobs, deleting: false, results: Vec::new() }
    }

    /// The current job, unless all have ended.
    pub fn current(&self) -> (r: Option<&Job>)
        requires
            self.wf(),
        ensures
            match r {
                Some(job) => self.at() < self.jobs().len() && *job == self.jobs()[self.at()],
                None => self.at() == self.jobs().len(),
            },
    {
        if self.results.len() < self.jobs.len() {
            Some(&self.jobs[self.results.len()])
        } else {
            None
        }
    }

    /// What is to be done now, or why it cannot be.
    pub fn next(&self) -> (r: Option<Plan<String>>)
        requires
            self.wf(),
        ensures
            match r {
                Some(p) => self.at() < self.jobs().len() && plan_view(p) == self.due(),
                None => self.at() == self.jobs().len(),
            },
    {
        match self.current() {
            Some(job) => if self.deleting {
                Some(Ok(delete_one(&job.source)))
            } else {
                Some(copy_of_plan(&job.plan))
            },
            None => None,
        }
    }

    /// What was due has ended like this.
    pub fn report(&mut self, result: Result<(), String>)
        requires
            old(self).wf(),
            old(self).at() < old(self).jobs().len(),
        ensures
            final(self).advanced(*old(self), result_view(result)),
            final(self).wf(),
    {
        let ghost before = *self;
        let ghost given = result_view(result);
        let job = &self.jobs[self.results.len()];
        let text = job.source.to_text();
        let ended: Option<Result<(), String>> = if self.deleting {
            Some(result)
        } else {
            match after_step(job, result) {
                Followup::Delete(_) => None,
                Followup::Done(r) => Some(r),
            }
        };
        match ended {
            Some(r) => {
                self.deleting = false;
                self.results.push((text, r));
                assert(outcome_views(self.results@) =~= outcome_views(before.results@).push(
                    (text@, result_view(r)),
                ));
            },
            None => {
                self.deleting = true;
            },
        }
    }

    /// How each job ended, in order.
    pub fn into_results(self) -> (r: Vec<Outcome>)
        ensures
            outcome_views(r@) == self.results(),
    {
        self.results
    }
}

/// A job of a batch ends with its outcome, whether or not its source is deleted
/// on the way; the jobs before it are left alone.
pub proof fn jobs_end_with_their_outcomes(
    b: Batch,
    c: Batch,
    d: Batch,
    stepped: Result<(), Seq<char>>,
    deleted: Result<(), Seq<char>>,
)
    requires
        b.wf(),
        b.at() < b.jobs().len(),
        !b.deleting(),
        c.advanced(b, attempted(b.jobs()[b.at()], stepped)),
        if c.deleting() {
            d.advanced(c, deleted)
        } else {
            d == c
        },
    ensures
        ({
            let job = b.jobs()[b.at()];
            &&& c.deleting() == (followed(job, attempted(job, stepped)) is Delete)
            &&& c.deleting() ==> c.due() == Ok::<Step<Seq<char>>, Seq<char>>(
                delete_plan(job.source@),
            )
            &&& d.jobs() == b.jobs()
            &&& !d.deleting()
            &&& d.results() == b.results().push(
                (show_location(job.source@), outcome(job, stepped, deleted)),
            )
        }),
{
}

/// A move between backends takes a source away only after its own copy
/// succeeded, and then once, with the outcome of that deletion as its own; a
/// copy that failed keeps its error, and the source stays.
pub proof fn moves_delete_only_what_was_copied(
    srcs: Seq<Location>,
    dst: LocationView,
    copies: Seq<Job>,
    moves: Seq<Job>,
    i: int,
    stepped: Result<(), Seq<char>>,
    deleted: Result<(), Seq<char>>,
)
    requires
        0 <= i < srcs.len(),
        copies_planned(srcs, dst, copies),
        moves_planned(srcs, dst, moves),
        !moves_at_once(transport_of(srcs[0]@), dst),
    ensures
        moves.len() == srcs.len(),
        moves[i].source == srcs[i],
        plan_view(moves[i].plan) == plan_view(copies[i].plan),
        outcome(copies[i], stepped, deleted) == attempted(copies[i], stepped),
        match outcome(copies[i], stepped, deleted) {
            Err(e) => {
                &&& followed(moves[i], attempted(moves[i], stepped)) == Followup::<Seq<char>>::Done(
                    Err(e),
                )
                &&& outcome(moves[i], stepped, deleted) == Err::<(), Seq<char>>(e)
            },
            Ok(_) => {
                &&& followed(moves[i], attempted(moves[i], stepped)) == Followup::Delete(
                    delete_plan(srcs[i]@),
                )
                &&& outcome(moves[i], stepped, deleted) == deleted
            },
        },
{
    assert(moves[i].source == srcs[i]);
    assert(copies[i].source == srcs[i]);
}

/// How one source gets a new name, or a copy under one.
pub fn plan_exact(src: &Location, dst: &Location, moving: bool) -> (r: Plan<String>)
    ensures
        plan_view(r) == exact_plan(src@, dst@, moving),
{
    let a = transport(src);
    let b = transport(dst);
    match (&a, &b) {
        (Transport::Local, Transport::Local) => {
            let s = string_from(src.path());
            let d = string_from(dst.path());
            if moving {
                Ok(Step::MoveLocal { src: s, dst: d })
            } else {
                Ok(Step::CopyLocal { src: s, dst: d })
            }
        },
        (Transport::Dropbox, Transport::Dropbox) => {
            let from = dropbox_api_path(src.path());
            let to = dropbox_api_path(dst.path());
            Ok(
                Step::DropboxCall {
                    endpoint: transfer_endpoint(moving),
                    body: transfer_body(from.as_str(), to.as_str()),
                },
            )
        },
        (Transport::Ssh(x), Transport::Ssh(y)) => if same_text(x.as_str(), y.as_str()) {
            Ok(plan_host(src.path(), x, dst.path(), moving))
        } else {
            fail("a new name must be on the same backend")
        },
        _ => fail("a new name must be on the same backend"),
    }
}

/// How a source of one host is fetched into a directory here, and how it is
/// sent on to the other host from there.
pub open spec fn relay_plans(
    from: Seq<char>,
    to: Seq<char>,
    source: Seq<char>,
    dst: Seq<char>,
    staging: Seq<char>,
) -> (Step<Seq<char>>, Plan<Seq<char>>) {
    (
        Step::Sftp { backend: from, script: get_script(source, staging) },
        match file_name(source) {
            Some(name) => Ok(
                Step::Sftp { backend: to, script: put_script(join_path(staging, name), dst) },
            ),
            None => Err(no_name()),
        },
    )
}

/// How a source of one host is fetched into a directory here, and how it is
/// sent on to the other host from there.
pub fn relay(from: &BackendId, to: &BackendId, source: &str, dst: &str, staging: &str) -> (r: (
    Step<String>,
    Plan<String>,
))
    ensures
        (step_view(r.0), plan_view(r.1)) == relay_plans(from@, to@, source@, dst@, staging@),
{
    let get = plan_get(source, from, staging);
    let put = match file_name_of(source) {
        Some(name) => {
            let staged = join_paths(staging, name.as_str());
            Ok(plan_put(staged.as_str(), to, dst))
        },
        None => fail("source has no file name"),
    };
    (get, put)
}

/// How a source is fetched into a directory made for it.
pub open spec fn fetch_plan(src: LocationView, staging: Seq<char>) -> Plan<Seq<char>> {
    match file_name(src.path()) {
        None => Err(no_name()),
        Some(name) => match transport_of(src) {
            TransportView::Local => Ok(
                Step::CopyLocal { src: src.path(), dst: join_path(staging, name) },
            ),
            TransportView::Dropbox => Ok(
                Step::DropboxDownload {
                    api: api_path(src.path()),
                    local: join_path(staging, name),
                },
            ),
            TransportView::Ssh(host) => Ok(
                Step::Sftp { backend: host, script: get_script(src.path(), staging) },
            ),
        },
    }
}

/// How a source is fetched into a directory made for it, and where it is then.
pub fn fetch_to_local(src: &Location, staging: &str) -> (r: (Plan<String>, String))
    ensures
        plan_view(r.0) == fetch_plan(src@, staging@),
        file_name(src@.path()) matches Some(name) ==> r.1@ == join_path(staging@, name),
{
    match file_name_of(src.path()) {
        None => (fail("source has no file name"), String::new()),
        Some(name) => {
            let staged = join_paths(staging, name.as_str());
            let by = transport(src);
            let step = match &by {
                Transport::Local => Step::CopyLocal {
                    src: string_from(src.path()),
                    dst: staged.clone(),
                },
                Transport::Dropbox => Step::DropboxDownload {
                    api: dropbox_api_path(src.path()),
                    local: staged.clone(),
                },
                Transport::Ssh(host) => plan_get(src.path(), host, staging),
            };
            (Ok(step), staged)
        },
    }
}

/// How a fetched source is sent on.
pub open spec fn push_plan(local: Seq<char>, dst: LocationView) -> Plan<Seq<char>> {
    match transport_of(dst) {
        TransportView::Local => match file_name(local) {
            Some(name) => Ok(Step::CopyLocal { src: local, dst: join_path(dst.path(), name) }),
            None => Err("staged file has no name"@),
        },
        TransportView::Dropbox => match file_name(local) {
            Some(name) => Ok(
                Step::DropboxUpload { local, api: child_path(api_path(dst.path()), name) },
            ),
            None => Err("staged file has no name"@),
        },
        TransportView::Ssh(host) => Ok(
            Step::Sftp { backend: host, script: put_script(local, dst.path()) },
        ),
    }
}

/// How a fetched source is sent on.
pub fn push_from_local(local: &str, dst: &Location) -> (r: Plan<String>)
    ensures
        plan_view(r) == push_plan(local@, dst@),
{
    let by = transport(dst);
    match &by {
        Transport::Local => match file_name_of(local) {
            Some(name) => Ok(
                Step::CopyLocal {
                    src: string_from(local),
                    dst: join_paths(dst.path(), name.as_str()),
                },
            ),
            None => fail("staged file has no name"),
        },
        Transport::Dropbox => match file_name_of(local) {
            Some(name) => {
                let dir = dropbox_api_path(dst.path());
                Ok(
                    Step::DropboxUpload {
                        local: string_from(local),
                        api: join_dropbox(dir.as_str(), name.as_str()),
                    },
                )
            },
            None => fail("staged file has no name"),
        },
        Transport::Ssh(host) => Ok(plan_put(local, host, dst.path())),
    }
}

/// Whether a rename that failed with this number of the system is made up for
/// by a copy and a deletion: only where the two paths are on different devices.
pub fn crosses_devices(platform: Platform, os_error: Option<i32>) -> (r: bool)
    ensures
        r == (os_error == Some(
            if platform == Platform::Windows {
                17i32
            } else {
                18i32
            },
        )),
{
    let other_device: i32 = if platform == Platform::Windows {
        17
    } else {
        18
    };
    match os_error {
        Some(n) => n == other_device,
        None => false,
    }
}

/// Whose paths are joined: those of this system, or those of the Dropbox API.
#[derive(Debug, Clone, Copy, PartialEq, Eq, Structural)]
pub enum PathStyle {
    Native,
    Api,
}

/// The path of a child.
pub open spec fn child_of(style: PathStyle, dir: Seq<char>, name: Seq<char>) -> Seq<char> {
    match style {
        PathStyle::Native => join_path(dir, name),
        PathStyle::Api => child_path(dir, name),
    }
}

fn child(style: PathStyle, dir: &str, name: &str) -> (r: String)
    ensures
        r@ == child_of(style, dir@, name@),
{
    match style {
        PathStyle::Native => join_paths(dir, name),
        PathStyle::Api => join_dropbox(dir, name),
    }
}

/// Pairs of paths as plain values.
pub open spec fn pair_views(v: Seq<(String, String)>) -> Seq<(Seq<char>, Seq<char>)> {
    Seq::new(v.len(), |i: int| (v[i].0@, v[i].1@))
}

/// A directory tree that is copied, one item after the other: each directory
/// is made before what it holds is looked at.
pub struct TreeWalk {
    pub from: PathStyle,
    pub to: PathStyle,
    /// The sources that are still to be copied and where to; the last is next.
    pub pending: Vec<(String, String)>,
}

/// The pairs of what a directory holds, the first of them last.
pub open spec fn child_pairs(
    from: PathStyle,
    to: PathStyle,
    src: Seq<char>,
    dst: Seq<char>,
    names: Seq<Seq<char>>,
) -> Seq<(Seq<char>, Seq<char>)> {
    Seq::new(
        names.len(),
        |i: int|
            {
                let name = names[names.len() - 1 - i];
                (child_of(from, src, name), child_of(to, dst, name))
            },
    )
}

impl TreeWalk {
    /// A walk over one file or directory.
    pub fn new(from: PathStyle, to: PathStyle, src: &str, dst: &str) -> (r: TreeWalk)
        ensures
            r.from == from,
            r.to == to,
            pair_views(r.pending@) == seq![(src@, dst@)],
    {
        let pending: Vec<(String, String)> = vec![(string_from(src), string_from(dst))];
        assert(pair_views(pending@) =~= seq![(src@, dst@)]);
        TreeWalk { from, to, pending }
    }

    /// The next item, which is no longer pending.
    pub fn step(&mut self) -> (r: Option<(String, String)>)
        ensures
            final(self).from == old(self).from,
            final(self).to == old(self).to,
            match r {
                Some(p) => old(self).pending@.len() > 0 && p == old(self).pending@.last()
                    && final(self).pending@ == old(self).pending@.drop_last(),
                None => old(self).pending@.len() == 0 && final(self).pending@.len() == 0,
            },
    {
        self.pending.pop()
    }

    /// Takes up what a directory holds.
    pub fn enter(&mut self, src: &str, dst: &str, names: &Vec<String>)
        ensures
            final(self).from == old(self).from,
            final(self).to == old(self).to,
            pair_views(final(self).pending@) == pair_views(old(self).pending@) + child_pairs(
                old(self).from,
                old(self).to,
                src@,
                dst@,
                texts(names@),
            ),
    {
        let ghost before = pair_views(self.pending@);
        let ghost want = child_pairs(self.from, self.to, src@, dst@, texts(names@));
        let mut i: usize = names.len();
        assert(pair_views(self.pending@) =~= before + want.take(0));
        while i > 0
            invariant
                i <= names@.len(),
                self.from == old(self).from,
                self.to == old(self).to,
                want == child_pairs(self.from, self.to, src@, dst@, texts(names@)),
                pair_views(self.pending@) == before + want.take(names@.len() - i),
            decreases i,
        {
            i -= 1;
            let a = child(self.from, src, names[i].as_str());
            let b = child(self.to, dst, names[i].as_str());
            let ghost pair = (a@, b@);
            let ghost was = self.pending@;
            self.pending.push((a, b));
            proof {
                let k = names@.len() - 1 - i;
                assert(want[k] == pair);
                assert(pair_views(self.pending@) =~= pair_views(was).push(pair));
                assert(want.take(k + 1) =~= want.take(k).push(pair));
                assert(pair_views(self.pending@) =~= before + want.take(k + 1));
            }
        }
        assert(want.take(names@.len() as int) =~= want);
    }
}

/// What a directory holds is copied in order: the next item of the walk is its
/// first one.
pub proof fn first_child_comes_next(
    from: PathStyle,
    to: PathStyle,
    src: Seq<char>,
    dst: Seq<char>,
    names: Seq<Seq<char>>,
)
    requires
        names.len() > 0,
    ensures
        child_pairs(from, to, src, dst, names).last() == (
            child_of(from, src, names[0]),
            child_of(to, dst, names[0]),
        ),
{
}

// ---- Laws ------------------------------------------------------------------

/// The path of a file of the source's name in a local directory.
pub open spec fn lands_in(path: Seq<char>, src: LocationView, dir: Seq<char>) -> bool {
    &&& file_name(src.path()) matches Some(name)
    &&& components(path) == components(dir).push(name)
}

/// The API path of a file of the source's name in a folder of the account.
pub open spec fn api_child_of(api: Seq<char>, src: LocationView, dir: Seq<char>) -> bool {
    &&& file_name(src.path()) matches Some(name)
    &&& api == api_path(dir) + seq!['/'] + name
}

/// A step takes the source, and no other, from where it is, and puts it into
/// the directory under its own name. A source is read where its location says:
/// by its whole path, and on its own host.
pub open spec fn carries(
    s: Step<Seq<char>>,
    src: LocationView,
    dir: LocationView,
    moving: bool,
) -> bool {
    match s {
        Step::CopyLocal { src: from, dst } => {
            &&& !moving
            &&& src == LocationView::Local(from)
            &&& dir is Local
            &&& lands_in(dst, src, dir.path())
        },
        Step::MoveLocal { src: from, dst } => {
            &&& moving
            &&& src == LocationView::Local(from)
            &&& dir is Local
            &&& lands_in(dst, src, dir.path())
        },
        Step::Sftp { backend, script } => {
            &&& !moving
            &&& match (src, dir) {
                (LocationView::Local(from), LocationView::Remote { backend: host, path }) => {
                    &&& host == backend
                    &&& script == "put -r "@ + quoted(from) + " "@ + sftp_quoted(path) + "\n"@
                },
                (LocationView::Remote { backend: host, path }, LocationView::Local(to)) => {
                    &&& host == backend
                    &&& script == "get -r "@ + sftp_quoted(path) + " "@ + quoted(to) + "\n"@
                },
                _ => false,
            }
        },
        Step::Ssh { backend, command } => match (src, dir) {
            (
                LocationView::Remote { backend: a, path: from },
                LocationView::Remote { backend: b, path: to },
            ) => {
                &&& a == backend
                &&& b == backend
                &&& command == (if moving {
                    "mv -- "@
                } else {
                    "cp -r -- "@
                }) + remote_quoted(from) + " "@ + remote_quoted(to)
            },
            _ => false,
        },
        Step::DropboxCall { endpoint, body } => {
            &&& src is Remote
            &&& dir is Remote
            &&& endpoint == (if moving {
                "files/move_v2"@
            } else {
                "files/copy_v2"@
            })
            &&& exists|to: Seq<char>|
                #[trigger] api_child_of(to, src, dir.path()) && body == "{\"from_path\":"@
                    + json_quoted(api_path(src.path())) + ",\"to_path\":"@ + json_quoted(to) + "}"@
        },
        Step::DropboxUpload { local, api } => {
            &&& !moving
            &&& src == LocationView::Local(local)
            &&& dir is Remote
            &&& api_child_of(api, src, dir.path())
        },
        Step::DropboxDownload { api, local } => {
            &&& !moving
            &&& src is Remote
            &&& api == api_path(src.path())
            &&& dir is Local
            &&& lands_in(local, src, dir.path())
        },
        Step::Relay { from, to } => {
            &&& !moving
            &&& from != to
            &&& src is Remote && src->backend == from
            &&& dir is Remote && dir->backend == to
        },
        Step::Stage => !moving && src is Remote && dir is Remote && src->backend != dir->backend,
        Step::DeleteLocal(_) => false,
    }
}

proof fn lemma_child(dir: Seq<char>, name: Seq<char>)
    ensures
        child_path(api_path(dir), name) == api_path(dir) + seq!['/'] + name,
{
    api_path_is_anchored(dir);
}

proof fn lemma_copy_carries(src: LocationView, dst: LocationView)
    ensures
        copy_plan(transport_of(src), src, dst) matches Ok(s) ==> carries(s, src, dst, false),
        file_name(src.path()) is Some ==> copy_plan(transport_of(src), src, dst) is Ok,
{
    if let Some(name) = file_name(src.path()) {
        file_name_is_last_component(src.path());
        join_then_parent(dst.path(), name);
        lemma_child(dst.path(), name);
        assert(api_child_of(child_path(api_path(dst.path()), name), src, dst.path()));
    }
}

proof fn lemma_move_carries(src: LocationView, dst: LocationView)
    requires
        moves_at_once(transport_of(src), dst),
    ensures
        move_plan(transport_of(src), src, dst) matches Ok(s) ==> carries(s, src, dst, true),
        file_name(src.path()) is Some ==> move_plan(transport_of(src), src, dst) is Ok,
{
    if let Some(name) = file_name(src.path()) {
        file_name_is_last_component(src.path());
        join_then_parent(dst.path(), name);
        lemma_child(dst.path(), name);
        assert(api_child_of(child_path(api_path(dst.path()), name), src, dst.path()));
    }
}

/// Every job of a copy, and every job of a move, takes its own source to the
/// directory under its own name. A source with a name can always be taken there.
/// Within one place a move is a move; otherwise it is the copy of that source.
pub proof fn jobs_carry_their_own_sources(
    srcs: Seq<Location>,
    dst: LocationView,
    copies: Seq<Job>,
    moves: Seq<Job>,
    i: int,
)
    requires
        0 <= i < srcs.len(),
        copies_planned(srcs, dst, copies),
        moves_planned(srcs, dst, moves),
        transport_of(srcs[i]@) == transport_of(srcs[0]@),
    ensures
        copies.len() == srcs.len(),
        moves.len() == srcs.len(),
        copies[i].source == srcs[i],
        moves[i].source == srcs[i],
        !copies[i].then_delete,
        plan_view(copies[i].plan) matches Ok(s) ==> carries(s, srcs[i]@, dst, false),
        plan_view(moves[i].plan) matches Ok(s) ==> carries(s, srcs[i]@, dst, !moves[i].then_delete),
        file_name(srcs[i]@.path()) is Some ==> plan_view(copies[i].plan) is Ok && plan_view(
            moves[i].plan,
        ) is Ok,
        moves[i].then_delete ==> plan_view(moves[i].plan) == plan_view(copies[i].plan),
        moves[i].then_delete == match (srcs[i]@, dst) {
            (LocationView::Local(_), LocationView::Local(_)) => false,
            (
                LocationView::Remote { backend: a, .. },
                LocationView::Remote { backend: b, .. },
            ) => a != b,
            _ => true,
        },
{
    assert(copies[i].source == srcs[i]);
    assert(moves[i].source == srcs[i]);
    lemma_copy_carries(srcs[i]@, dst);
    lemma_same_backend(srcs[i]@, dst);
    if moves_at_once(transport_of(srcs[0]@), dst) {
        lemma_move_carries(srcs[i]@, dst);
    }
}

/// Two remote places are reached by the same transport exactly where they are
/// on the same backend.
proof fn lemma_same_backend(a: LocationView, b: LocationView)
    ensures
        moves_at_once(transport_of(a), b) == match (a, b) {
            (LocationView::Local(_), LocationView::Local(_)) => true,
            (
                LocationView::Remote { backend: x, .. },
                LocationView::Remote { backend: y, .. },
            ) => x == y,
            _ => false,
        },
{
}

/// What is deleted is the location itself, by its whole path and on its own
/// host or in the account.
pub proof fn deletions_delete_the_location(loc: LocationView)
    ensures
        match delete_plan(loc) {
            Step::DeleteLocal(p) => loc == LocationView::Local(p),
            Step::Ssh { backend, command } => {
                &&& loc matches LocationView::Remote { backend: b, path }
                &&& b == backend
                &&& command == "rm -rf -- "@ + remote_quoted(path)
            },
            Step::DropboxCall { endpoint, body } => {
                &&& loc matches LocationView::Remote { path, .. }
                &&& endpoint == "files/delete_v2"@
                &&& body == "{\"path\":"@ + json_quoted(api_path(path)) + "}"@
            },
            _ => false,
        },
        loc is Local <==> delete_plan(loc) is DeleteLocal,
{
}

/// A new name is given within one backend, to the source itself, and is exactly
/// the path that was asked for.
pub proof fn new_names_are_exact(src: LocationView, dst: LocationView, moving: bool)
    ensures
        match (src, dst) {
            (LocationView::Local(from), LocationView::Local(to)) => exact_plan(src, dst, moving)
                == Ok::<Step<Seq<char>>, Seq<char>>(
                if moving {
                    Step::MoveLocal { src: from, dst: to }
                } else {
                    Step::CopyLocal { src: from, dst: to }
                },
            ),
            (
                LocationView::Remote { backend: a, path: from },
                LocationView::Remote { backend: b, path: to },
            ) => {
                &&& exact_plan(src, dst, moving) is Ok <==> a == b
                &&& exact_plan(src, dst, moving) matches Ok(s) ==> match s {
                    Step::Ssh { backend, command } => backend == a && command == (if moving {
                        "mv -- "@
                    } else {
                        "cp -r -- "@
                    }) + remote_quoted(from) + " "@ + remote_quoted(to),
                    Step::DropboxCall { endpoint, body } => endpoint == (if moving {
                        "files/move_v2"@
                    } else {
                        "files/copy_v2"@
                    }) && body == "{\"from_path\":"@ + json_quoted(api_path(from))
                        + ",\"to_path\":"@ + json_quoted(api_path(to)) + "}"@,
                    _ => false,
                }
            },
            _ => exact_plan(src, dst, moving) is Err,
        },
{
}

/// A source that goes through this machine is fetched from where it is into the
/// directory made for it, and sent on from there, under its own name, to where
/// it was to go.
pub proof fn staged_sources_arrive(
    src: LocationView,
    dst: LocationView,
    staging: Seq<char>,
    staged: Seq<char>,
)
    requires
        file_name(src.path()) matches Some(name) && staged == join_path(staging, name),
    ensures
        fetch_plan(src, staging) matches Ok(s) && carries(
            s,
            src,
            LocationView::Local(staging),
            false,
        ),
        push_plan(staged, dst) matches Ok(s) && carries(s, LocationView::Local(staged), dst, false),
        lands_in(staged, src, staging),
        file_name(staged) == file_name(src.path()),
        src is Remote && dst is Remote ==> relay_plans(
            src->backend,
            dst->backend,
            src.path(),
            dst.path(),
            staging,
        ) == (
            Step::Sftp {
                backend: src->backend,
                script: "get -r "@ + sftp_quoted(src.path()) + " "@ + quoted(staging) + "\n"@,
            },
            Ok::<Step<Seq<char>>, Seq<char>>(
                Step::Sftp {
                    backend: dst->backend,
                    script: "put -r "@ + quoted(staged) + " "@ + sftp_quoted(dst.path()) + "\n"@,
                },
            ),
        ),
{
    let name = file_name(src.path())->0;
    file_name_is_last_component(src.path());
    join_then_parent(staging, name);
    join_then_parent(dst.path(), name);
    lemma_child(dst.path(), name);
}

/// What a directory holds is copied name by name: each name from that directory
/// to the same name in the directory that was made for it, none left out.
pub proof fn trees_are_copied_name_by_name(
    from: PathStyle,
    to: PathStyle,
    src: Seq<char>,
    dst: Seq<char>,
    names: Seq<Seq<char>>,
    i: int,
)
    requires
        0 <= i < names.len(),
        is_plain_name(names[i]),
    ensures
        child_pairs(from, to, src, dst, names).len() == names.len(),
        ({
            let (a, b) = child_pairs(from, to, src, dst, names)[names.len() - 1 - i];
            &&& from == PathStyle::Native ==> components(a) == components(src).push(names[i])
            &&& to == PathStyle::Native ==> components(b) == components(dst).push(names[i])
            &&& from == PathStyle::Api && (src.len() == 0 || src.last() != '/') ==> a == src
                + seq!['/'] + names[i]
            &&& to == PathStyle::Api && (dst.len() == 0 || dst.last() != '/') ==> b == dst
                + seq!['/'] + names[i]
        }),
{
    join_then_parent(src, names[i]);
    join_then_parent(dst, names[i]);
}

/// A move is done at once where source and destination are both local, on one
/// host, or both in the account, and only there; elsewhere it is a copy after
/// which the source is deleted.
pub proof fn moves_stay_within_a_backend(src: LocationView, dst: LocationView)
    ensures
        moves_at_once(transport_of(src), dst) <==> match (src, dst) {
            (LocationView::Local(_), LocationView::Local(_)) => true,
            (
                LocationView::Remote { backend: a, .. },
                LocationView::Remote { backend: b, .. },
            ) => a == b,
            _ => false,
        },
{
}

/// Every source of a copy or a move has a job of its own, in their order, which
/// names it; no source of a copy is deleted, and one of a move exactly where the
/// move is not done at once.
pub proof fn every_source_has_a_job(
    srcs: Seq<Location>,
    dst: LocationView,
    copies: Seq<Job>,
    moves: Seq<Job>,
    i: int,
)
    requires
        copies_planned(srcs, dst, copies),
        moves_planned(srcs, dst, moves),
        0 <= i < srcs.len(),
    ensures
        copies.len() == srcs.len(),
        moves.len() == srcs.len(),
        copies[i].source == srcs[i],
        moves[i].source == srcs[i],
        !copies[i].then_delete,
        moves[i].then_delete <==> match (srcs[0]@, dst) {
            (LocationView::Local(_), LocationView::Local(_)) => false,
            (
                LocationView::Remote { backend: a, .. },
                LocationView::Remote { backend: b, .. },
            ) => a != b,
            _ => true,
        },
{
    moves_stay_within_a_backend(srcs[0]@, dst);
    assert(copies[i].source == srcs[i]);
    assert(moves[i].source == srcs[i]);
}

/// A deletion has a job for every location, in their order, whose step takes away
/// that location and no other: a local path, a path on its host, or a path of the
/// account.
pub proof fn every_location_is_deleted(srcs: Seq<Location>, jobs: Seq<Job>, i: int)
    requires
        deletions_planned(srcs, jobs),
        0 <= i < srcs.len(),
    ensures
        jobs.len() == srcs.len(),
        jobs[i].source == srcs[i],
        plan_view(jobs[i].plan) matches Ok(s) && match srcs[i]@ {
            LocationView::Local(p) => s == Step::<Seq<char>>::DeleteLocal(p),
            LocationView::Remote { backend, path } => if backend == "dropbox"@ {
                s == (Step::DropboxCall {
                    endpoint: "files/delete_v2"@,
                    body: path_json(api_path(path)),
                })
            } else {
                s == (Step::Ssh { backend, command: "rm -rf -- "@ + remote_quoted(path) })
            },
        },
{
    assert(jobs[i].source == srcs[i]);
}

} // verus!
