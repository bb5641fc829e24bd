//! Where a pane's listing lives: a local path or a path on a backend.

use std::convert::Infallible;
use std::str::FromStr;
use vstd::prelude::*;
use vstd::slice::slice_subrange;
use crate::path::{join_path, join_paths, parent_of, parent_path, paths_equal, same_path};
use crate::text::{chars_of, concat3, find_first, first_index, lemma_first_index};
use crate::text::{lemma_first_index_unique, same_text, string_from, string_of};

verus! {

/// Which transport a backend speaks.
#[derive(Debug, Clone, Copy, PartialEq, Eq, Structural)]
pub enum BackendKind {
    Ssh,
    Dropbox,
}

/// The identifier of a backend: an alias from the ssh configuration, or the
/// reserved id of the Dropbox account.
#[derive(Debug, PartialEq, Eq, Hash)]
pub struct BackendId(String);

impl View for BackendId {
    type V = Seq<char>;

    closed spec fn view(&self) -> Seq<char> {
        self.0@
    }
}

/// Which transport the backend with this id speaks.
pub open spec fn backend_kind(id: Seq<char>) -> BackendKind {
    if id == "dropbox"@ {
        BackendKind::Dropbox
    } else {
        BackendKind::Ssh
    }
}

impl BackendId {
    /// The reserved id of the Dropbox account.
    pub const DROPBOX: &'static str = "dropbox";

    pub fn new(id: &str) -> (r: Self)
        ensures
            r@ == id@,
    {
        BackendId(string_from(id))
    }

    pub fn as_str(&self) -> (r: &str)
        ensures
            r@ == self@,
    {
        self.0.as_str()
    }

    pub fn kind(&self) -> (r: BackendKind)
        ensures
            r == backend_kind(self@),
    {
        if same_text(self.0.as_str(), "dropbox") {
            BackendKind::Dropbox
        } else {
            BackendKind::Ssh
        }
    }

    pub fn is_dropbox(&self) -> (r: bool)
        ensures
            r == (backend_kind(self@) == BackendKind::Dropbox),
    {
        match self.kind() {
            BackendKind::Dropbox => true,
            BackendKind::Ssh => false,
        }
    }
}

impl Clone for BackendId {
    fn clone(&self) -> (r: Self)
        ensures
            r == *self,
    {
        BackendId(self.0.clone())
    }
}

/// A path on the local file system, or a path on a backend.
#[derive(Debug)]
pub enum Location {
    Local(String),
    Remote { backend: BackendId, path: String },
}

/// A location as plain values.
pub enum LocationView {
    Local(Seq<char>),
    Remote { backend: Seq<char>, path: Seq<char> },
}

impl View for Location {
    type V = LocationView;

    open spec fn view(&self) -> LocationView {
        match self {
            Location::Local(p) => LocationView::Local(p@),
            Location::Remote { backend, path } => LocationView::Remote {
                backend: backend@,
                path: path@,
            },
        }
    }
}

impl LocationView {
    /// The path, whichever backend it is on.
    pub open spec fn path(self) -> Seq<char> {
        match self {
            LocationView::Local(p) => p,
            LocationView::Remote { path, .. } => path,
        }
    }

    /// The same backend with another path.
    pub open spec fn with_path(self, p: Seq<char>) -> LocationView {
        match self {
            LocationView::Local(_) => LocationView::Local(p),
            LocationView::Remote { backend, .. } => LocationView::Remote { backend, path: p },
        }
    }

    /// Whether both name the same place.
    pub open spec fn same_place(self, other: LocationView) -> bool {
        match (self, other) {
            (LocationView::Local(a), LocationView::Local(b)) => same_path(a, b),
            (
                LocationView::Remote { backend: x, path: a },
                LocationView::Remote { backend: y, path: b },
            ) => x == y && same_path(a, b),
            _ => false,
        }
    }
}

/// A single ASCII letter.
pub open spec fn is_letter(c: char) -> bool {
    ('a' <= c && c <= 'z') || ('A' <= c && c <= 'Z')
}

/// A character that a backend id may hold.
pub open spec fn is_id_char(c: char) -> bool {
    is_letter(c) || ('0' <= c && c <= '9') || c == '.' || c == '_' || c == '-'
}

/// A text that can be the id of a backend.
pub open spec fn is_backend_id(s: Seq<char>) -> bool {
    s.len() > 0 && forall|i: int| 0 <= i < s.len() ==> is_id_char(#[trigger] s[i])
}

/// A path that can follow a backend id.
pub open spec fn is_remote_path(p: Seq<char>) -> bool {
    p.len() > 0 && (p[0] == '/' || p[0] == '~')
}

/// A drive letter before a path such as `C:\x` or `C:/x`.
pub open spec fn is_drive(prefix: Seq<char>, rest: Seq<char>) -> bool {
    prefix.len() == 1 && is_letter(prefix[0]) && rest.len() > 0 && (rest[0] == '\\' || rest[0]
        == '/')
}

/// The location that a text denotes: `<backend>:<path>` where the path starts
/// with `/` or `~`, otherwise a local path.
pub open spec fn parse_location(s: Seq<char>) -> LocationView {
    let i = first_index(s, ':');
    let prefix = s.take(i);
    let rest = s.skip(i + 1);
    if i < s.len() && !is_drive(prefix, rest) && is_backend_id(prefix) && is_remote_path(rest) {
        LocationView::Remote { backend: prefix, path: rest }
    } else {
        LocationView::Local(s)
    }
}

/// The text of a location.
pub open spec fn show_location(l: LocationView) -> Seq<char> {
    match l {
        LocationView::Local(p) => p,
        LocationView::Remote { backend, path } => backend + seq![':'] + path,
    }
}

/// The parent on the same backend; none at the root.
pub open spec fn location_parent(l: LocationView) -> Option<LocationView> {
    match parent_path(l.path()) {
        Some(p) => Some(l.with_path(p)),
        None => None,
    }
}

/// Every text denotes a location, and that location's text is the same again.
pub proof fn parse_then_show(s: Seq<char>)
    ensures
        show_location(parse_location(s)) == s,
{
    lemma_first_index(s, ':');
    let i = first_index(s, ':');
    if i < s.len() {
        assert(s.take(i) + seq![':'] + s.skip(i + 1) =~= s);
    }
}

/// A location's text denotes that location again, unless the text of a local
/// path has the form of a remote one, or the text of a remote one has the form
/// of a drive or its id or path is none that can be written.
pub proof fn show_then_parse(l: LocationView)
    requires
        match l {
            LocationView::Local(p) => parse_location(p) is Local,
            LocationView::Remote { backend, path } => is_backend_id(backend) && is_remote_path(path)
                && !is_drive(backend, path),
        },
    ensures
        parse_location(show_location(l)) == l,
{
    match l {
        LocationView::Local(p) => {},
        LocationView::Remote { backend, path } => {
            let s = show_location(l);
            assert forall|j: int| 0 <= j < backend.len() implies s[j] != ':' by {
                assert(is_id_char(backend[j]));
            }
            lemma_first_index_unique(s, ':', backend.len() as int);
            assert(s.take(backend.len() as int) =~= backend);
            assert(s.skip(backend.len() as int + 1) =~= path);
        },
    }
}

/// Going up keeps the backend, and going down by a plain name and up again
/// leads to the same place.
pub proof fn location_join_then_parent(l: LocationView, name: Seq<char>)
    requires
        crate::path::is_plain_name(name),
    ensures
        location_parent(l.with_path(join_path(l.path(), name))) matches Some(q) && q.same_place(l),
{
    crate::path::join_then_parent(l.path(), name);
}

fn letter(c: char) -> (r: bool)
    ensures
        r == is_letter(c),
{
    ('a' <= c && c <= 'z') || ('A' <= c && c <= 'Z')
}

fn id_char(c: char) -> (r: bool)
    ensures
        r == is_id_char(c),
{
    letter(c) || ('0' <= c && c <= '9') || c == '.' || c == '_' || c == '-'
}

fn backend_id_text(s: &[char]) -> (r: bool)
    ensures
        r == is_backend_id(s@),
{
    if s.len() == 0 {
        return false;
    }
    let mut i: usize = 0;
    while i < s.len()
        invariant
            i <= s@.len(),
            forall|j: int| 0 <= j < i ==> is_id_char(#[trigger] s@[j]),
        decreases s.len() - i,
    {
        if !id_char(s[i]) {
            return false;
        }
        i += 1;
    }
    true
}

impl Location {
    pub fn local(path: &str) -> (r: Self)
        ensures
            r@ == LocationView::Local(path@),
    {
        Location::Local(string_from(path))
    }

    pub fn remote(backend: BackendId, path: &str) -> (r: Self)
        ensures
            r@ == (LocationView::Remote { backend: backend@, path: path@ }),
    {
        Location::Remote { backend, path: string_from(path) }
    }

    /// Whether the location is on the local file system.
    pub fn is_local(&self) -> (r: bool)
        ensures
            r == (self is Local),
            r == (self@ is Local),
    {
        match self {
            Location::Local(_) => true,
            Location::Remote { .. } => false,
        }
    }

    /// The path, whichever backend it is on.
    pub fn path(&self) -> (r: &str)
        ensures
            r@ == self@.path(),
    {
        match self {
            Location::Local(p) => p.as_str(),
            Location::Remote { path, .. } => path.as_str(),
        }
    }

    /// The same backend with another path.
    pub fn with_path(&self, p: String) -> (r: Location)
        ensures
            r@ == self@.with_path(p@),
    {
        match self {
            Location::Local(_) => Location::Local(p),
            Location::Remote { backend, .. } => Location::Remote {
                backend: backend.clone(),
                path: p,
            },
        }
    }

    /// The parent on the same backend; none at the root.
    pub fn parent(&self) -> (r: Option<Location>)
        ensures
            match r {
                Some(p) => location_parent(self@) == Some(p@),
                None => location_parent(self@) is None,
            },
    {
        match parent_of(self.path()) {
            Some(p) => Some(self.with_path(p)),
            None => None,
        }
    }

    /// A name resolved against the location, on the same backend.
    pub fn join(&self, name: &str) -> (r: Location)
        ensures
            r@ == self@.with_path(join_path(self@.path(), name@)),
    {
        self.with_path(join_paths(self.path(), name))
    }

    /// The location that a text denotes.
    pub fn parse(s: &str) -> (r: Location)
        ensures
            r@ == parse_location(s@),
    {
        let v = chars_of(s);
        let i = find_first(v.as_slice(), ':');
        if i < v.len() {
            let prefix = slice_subrange(v.as_slice(), 0, i);
            let rest = slice_subrange(v.as_slice(), i + 1, v.len());
            assert(prefix@ =~= s@.take(i as int));
            assert(rest@ =~= s@.skip(i + 1));
            let drive: bool = prefix.len() == 1 && letter(prefix[0]) && rest.len() > 0 && (rest[0]
                == '\\' || rest[0] == '/');
            if !drive && backend_id_text(prefix) && rest.len() > 0 && (rest[0] == '/' || rest[0]
                == '~') {
                return Location::Remote {
                    backend: BackendId(string_of(prefix)),
                    path: string_of(rest),
                };
            }
        }
        Location::Local(string_from(s))
    }

    /// The text of the location.
    pub fn to_text(&self) -> (r: String)
        ensures
            r@ == show_location(self@),
    {
        match self {
            Location::Local(p) => p.clone(),
            Location::Remote { backend, path } => {
                proof {
                    reveal_strlit(":");
                    assert(":"@ =~= seq![':']);
                }
                concat3(backend.as_str(), ":", path.as_str())
            },
        }
    }

    /// Whether both name the same place.
    pub fn same_place(&self, other: &Location) -> (r: bool)
        ensures
            r == self@.same_place(other@),
    {
        match (self, other) {
            (Location::Local(a), Location::Local(b)) => paths_equal(a.as_str(), b.as_str()),
            (
                Location::Remote { backend: x, path: a },
                Location::Remote { backend: y, path: b },
            ) => same_text(x.as_str(), y.as_str()) && paths_equal(a.as_str(), b.as_str()),
            _ => false,
        }
    }
}

impl Clone for Location {
    fn clone(&self) -> (r: Location)
        ensures
            r == *self,
    {
        match self {
            Location::Local(p) => Location::Local(p.clone()),
            Location::Remote { backend, path } => Location::Remote {
                backend: backend.clone(),
                path: path.clone(),
            },
        }
    }
}

impl PartialEq for Location {
    fn eq(&self, other: &Location) -> (r: bool) {
        self.same_place(other)
    }
}

impl vstd::std_specs::cmp::PartialEqSpecImpl for Location {
    open spec fn obeys_eq_spec() -> bool {
        true
    }

    open spec fn eq_spec(&self, other: &Location) -> bool {
        self@.same_place(other@)
    }
}

impl Eq for Location {

}

impl FromStr for Location {
    type Err = Infallible;

    fn from_str(s: &str) -> (r: Result<Self, Infallible>)
        ensures
            r matches Ok(l) && l@ == parse_location(s@),
    {
        Ok(Location::parse(s))
    }
}

/// The id of a host: letters, digits, dots, underscores and hyphens.
pub open spec fn can_be_host(id: Seq<char>) -> bool {
    id.len() > 0 && forall|i: int|
        0 <= i < id.len() ==> ('a' <= #[trigger] id[i] <= 'z' || 'A' <= id[i] <= 'Z' || '0'
            <= id[i] <= '9' || id[i] == '.' || id[i] == '_' || id[i] == '-')
}

/// A host, a colon and a path that starts at the root or at home are a place on
/// that host, unless host and path look like a drive.
pub proof fn host_texts_are_remote(id: Seq<char>, path: Seq<char>)
    requires
        can_be_host(id),
        path.len() > 0,
        path[0] == '/' || path[0] == '~',
        id.len() > 1 || path[0] == '~' || !('a' <= id[0] <= 'z' || 'A' <= id[0] <= 'Z'),
    ensures
        parse_location(id + seq![':'] + path) == (LocationView::Remote { backend: id, path }),
        show_location(LocationView::Remote { backend: id, path }) == id + seq![':'] + path,
{
    let l = LocationView::Remote { backend: id, path };
    assert forall|i: int| 0 <= i < id.len() implies is_id_char(#[trigger] id[i]) by {}
    show_then_parse(l);
}

/// Texts without a colon, paths from the root, and drives are local paths, as
/// they stand.
pub proof fn other_texts_are_local(s: Seq<char>)
    requires
        ({
            ||| !s.contains(':')
            ||| s.len() > 0 && s[0] == '/'
            ||| s.len() > 2 && ('a' <= s[0] <= 'z' || 'A' <= s[0] <= 'Z') && s[1] == ':' && (s[2]
                == '/' || s[2] == '\\')
        }),
    ensures
        parse_location(s) == LocationView::Local(s),
        show_location(LocationView::Local(s)) == s,
{
    lemma_first_index(s, ':');
    let i = first_index(s, ':');
    if i < s.len() {
        assert(s.contains(s[i]));
        if s[0] == '/' {
            assert(s.take(i)[0] == '/');
            assert(!is_id_char('/'));
        } else {
            lemma_first_index_unique(s, ':', 1);
            assert(s.take(1)[0] == s[0]);
            assert(s.skip(2)[0] == s[2]);
        }
    }
}

/// Two locations are the same place where they are on the same backend and their
/// paths have the same components. The account is the backend of its own id, and
/// every other backend is a host.
pub proof fn places_are_backend_and_path(a: LocationView, b: LocationView)
    ensures
        a.same_place(b) <==> match (a, b) {
            (LocationView::Local(p), LocationView::Local(q)) => crate::path::components(p)
                == crate::path::components(q),
            (
                LocationView::Remote { backend: x, path: p },
                LocationView::Remote { backend: y, path: q },
            ) => x == y && crate::path::components(p) == crate::path::components(q),
            _ => false,
        },
        a is Remote ==> (backend_kind(a->backend) == BackendKind::Dropbox <==> a->backend
            == "dropbox"@),
        forall|p: Seq<char>|
            #![trigger a.with_path(p)]
            a.with_path(p).path() == p && (a is Local <==> a.with_path(p) is Local) && (a is Remote
                ==> a.with_path(p)->backend == a->backend),
{
}

} // verus!
