//! Paths as text: purely lexical operations on `/`-separated paths.
//!
//! A path is read as a sequence of components. Repeated separators, a trailing
//! separator and `.` components say nothing, except for a `.` that a relative
//! path starts with.

use vstd::prelude::*;
use vstd::slice::slice_subrange;
use crate::text::{chars_of, find_last, last_index, lemma_last_index, lemma_last_index_unique};
use crate::text::{same_chars, string_of};

verus! {

pub open spec fn is_absolute(p: Seq<char>) -> bool {
    p.len() > 0 && p[0] == '/'
}

/// Whether the path is relative and starts with a `.` component.
pub open spec fn starts_in_current(p: Seq<char>) -> bool {
    p.len() > 0 && p[0] == '.' && (p.len() == 1 || p[1] == '/')
}

/// How many characters stand for the root or the leading `.`.
pub open spec fn body_start(p: Seq<char>) -> int {
    if is_absolute(p) || starts_in_current(p) {
        1
    } else {
        0
    }
}

/// The text after the last separator of the body.
pub open spec fn last_part(p: Seq<char>, b: int) -> Seq<char> {
    p.skip(b).skip(last_index(p.skip(b), '/') + 1)
}

/// Where the path ends once its last part and the separator before it are gone.
pub open spec fn cut_point(p: Seq<char>, b: int) -> int {
    let i = last_index(p.skip(b), '/');
    if i >= 0 {
        b + i
    } else {
        b
    }
}

/// A part that is no component.
pub open spec fn is_void(part: Seq<char>) -> bool {
    part.len() == 0 || part == seq!['.']
}

/// The path without what says nothing at its end.
pub open spec fn strip_back(p: Seq<char>, b: int) -> Seq<char>
    decreases p.len(),
{
    if b < 0 || p.len() <= b {
        p
    } else if is_void(last_part(p, b)) && cut_point(p, b) < p.len() {
        strip_back(p.take(cut_point(p, b)), b)
    } else {
        p
    }
}

/// The path without what says nothing at its end.
pub open spec fn stripped(p: Seq<char>) -> Seq<char> {
    strip_back(p, body_start(p))
}

/// The components of a path; the root is the component `/`.
pub open spec fn components(p: Seq<char>) -> Seq<Seq<char>>
    decreases p.len(),
{
    let b = body_start(p);
    let q = stripped(p);
    let cut = cut_point(q, b);
    if q.len() <= b {
        if is_absolute(p) {
            seq![seq!['/']]
        } else if starts_in_current(p) {
            seq![seq!['.']]
        } else {
            seq![]
        }
    } else if 0 <= cut < q.len() <= p.len() {
        components(q.take(cut)).push(last_part(q, b))
    } else {
        seq![]
    }
}

/// Two texts that name the same path.
pub open spec fn same_path(a: Seq<char>, b: Seq<char>) -> bool {
    components(a) == components(b)
}

/// The path without its last component; none for the root and the empty path.
pub open spec fn parent_path(p: Seq<char>) -> Option<Seq<char>> {
    let b = body_start(p);
    let q = stripped(p);
    if q.len() > b {
        Some(strip_back(q.take(cut_point(q, b)), b))
    } else if starts_in_current(p) {
        Some(seq![])
    } else {
        None
    }
}

/// The last component, unless it is the root, a leading `.` or `..`.
pub open spec fn file_name(p: Seq<char>) -> Option<Seq<char>> {
    let b = body_start(p);
    let q = stripped(p);
    if q.len() > b && last_part(q, b) != seq!['.', '.'] {
        Some(last_part(q, b))
    } else {
        None
    }
}

/// The name without its extension; a name whose only dot leads it has none.
pub open spec fn stem_of(name: Seq<char>) -> Seq<char> {
    if last_index(name, '.') > 0 {
        name.take(last_index(name, '.'))
    } else {
        name
    }
}

/// What follows the last dot of a name, unless that dot leads it.
pub open spec fn extension_of(name: Seq<char>) -> Option<Seq<char>> {
    if last_index(name, '.') > 0 {
        Some(name.skip(last_index(name, '.') + 1))
    } else {
        None
    }
}

/// `name` resolved against `p`: an absolute name replaces the path.
pub open spec fn join_path(p: Seq<char>, name: Seq<char>) -> Seq<char> {
    if is_absolute(name) {
        name
    } else if p.len() == 0 || p.last() == '/' {
        p + name
    } else {
        p + seq!['/'] + name
    }
}

/// A name that is one ordinary component.
pub open spec fn is_plain_name(name: Seq<char>) -> bool {
    &&& name.len() > 0
    &&& !name.contains('/')
    &&& name != seq!['.']
    &&& name != seq!['.', '.']
}

// ---------------------------------------------------------------------------
// Laws
// ---------------------------------------------------------------------------

proof fn lemma_cut_bounds(p: Seq<char>, b: int)
    requires
        0 <= b < p.len(),
    ensures
        b <= cut_point(p, b) <= p.len(),
        cut_point(p, b) < p.len() || last_part(p, b).len() == p.len() - b,
        is_void(last_part(p, b)) ==> cut_point(p, b) < p.len(),
        cut_point(p, b) < p.len(),
{
    lemma_last_index(p.skip(b), '/');
}

proof fn lemma_strip_back(p: Seq<char>, b: int)
    requires
        0 <= b <= p.len(),
    ensures
        b <= strip_back(p, b).len() <= p.len(),
        strip_back(p, b) == p.take(strip_back(p, b).len() as int),
        strip_back(p, b).len() > b ==> !is_void(last_part(strip_back(p, b), b)),
        strip_back(strip_back(p, b), b) == strip_back(p, b),
    decreases p.len(),
{
    if p.len() > b {
        lemma_cut_bounds(p, b);
        if is_void(last_part(p, b)) {
            let c = cut_point(p, b);
            lemma_strip_back(p.take(c), b);
            let n = strip_back(p, b).len() as int;
            assert(p.take(c).take(n) =~= p.take(n));
        } else {
            assert(p.take(p.len() as int) =~= p);
        }
    } else {
        assert(p.take(p.len() as int) =~= p);
    }
}

/// A prefix that ends where a part does starts its body at the same place.
proof fn lemma_body_start_of_prefix(p: Seq<char>, n: int)
    requires
        body_start(p) <= n <= p.len(),
        n < p.len() && n > 0 && body_start(p) == 0 ==> p[n] == '/',
    ensures
        n > 0 ==> body_start(p.take(n)) == body_start(p),
        n > 0 ==> is_absolute(p.take(n)) == is_absolute(p),
        n > 0 ==> starts_in_current(p.take(n)) == starts_in_current(p),
{
}

/// Where stripping stops there is a separator, or nothing was stripped.
proof fn lemma_strip_stops(p: Seq<char>, b: int)
    requires
        0 <= b <= p.len(),
    ensures
        ({
            let n = strip_back(p, b).len() as int;
            n < p.len() && n > b ==> p[n] == '/'
        }),
    decreases p.len(),
{
    if p.len() > b {
        lemma_cut_bounds(p, b);
        lemma_last_index(p.skip(b), '/');
        if is_void(last_part(p, b)) {
            let c = cut_point(p, b);
            lemma_strip_stops(p.take(c), b);
            lemma_strip_back(p.take(c), b);
        }
    }
}

proof fn lemma_stripped_components(p: Seq<char>)
    ensures
        components(stripped(p)) == components(p),
        body_start(stripped(p)) == body_start(p),
        stripped(stripped(p)) == stripped(p),
{
    let b = body_start(p);
    lemma_strip_back(p, b);
    lemma_strip_stops(p, b);
    let q = stripped(p);
    lemma_body_start_of_prefix(p, q.len() as int);
    if q.len() == 0 {
        assert(q =~= seq![]);
        assert(stripped(q) == q);
    }
}

/// The parent has the components of the path but the last one. Only the root
/// and the empty path have no parent.
pub proof fn parent_drops_last_component(p: Seq<char>)
    ensures
        match parent_path(p) {
            Some(q) => components(p).len() > 0 && components(q) == components(p).drop_last(),
            None => components(p) == seq![seq!['/']] || components(p) == Seq::<Seq<char>>::empty(),
        },
{
    let b = body_start(p);
    let q = stripped(p);
    lemma_strip_back(p, b);
    lemma_strip_stops(p, b);
    if q.len() > b {
        lemma_cut_bounds(q, b);
        lemma_last_index(q.skip(b), '/');
        let c = cut_point(q, b);
        let d = q.take(c);
        lemma_stripped_components(p);
        lemma_body_start_of_prefix(q, c);
        if c == 0 {
            assert(d =~= seq![]);
            assert(strip_back(d, b) == d);
        } else {
            assert(stripped(d) == strip_back(d, b));
            lemma_stripped_components(d);
        }
        assert(components(p).drop_last() =~= components(d));
    } else if starts_in_current(p) {
        assert(components(seq![]) =~= seq![]) by {
            reveal_with_fuel(components, 2);
        }
        assert(components(p).drop_last() =~= seq![]);
    }
}

/// Joining a plain name adds one component, which is then the file name, and
/// the parent of the result is the path again.
pub proof fn join_then_parent(p: Seq<char>, name: Seq<char>)
    requires
        is_plain_name(name),
    ensures
        file_name(join_path(p, name)) == Some(name),
        components(join_path(p, name)) == components(p).push(name),
        parent_path(join_path(p, name)) matches Some(q) && same_path(q, p),
{
    let b = body_start(p);
    let j = join_path(p, name);
    if p.len() == 0 {
        lemma_plain_alone(name);
        assert(p =~= seq![]);
        assert(j =~= name);
    } else {
        lemma_join_cut(p, name);
        let d = j.take(cut_point(j, b));
        lemma_body_start_of_prefix(j, d.len() as int);
        lemma_stripped_components(d);
        lemma_stripped_components(p);
        assert(components(d) == components(p));
    }
}

/// A plain name alone is a path of one component.
proof fn lemma_plain_alone(name: Seq<char>)
    requires
        is_plain_name(name),
    ensures
        file_name(name) == Some(name),
        components(name) == components(seq![]).push(name),
        parent_path(name) == Some(Seq::<char>::empty()),
        !is_absolute(name),
{
    assert forall|i: int| 0 <= i < name.len() implies name[i] != '/' by {
        assert(name.contains(name[i]));
    }
    if starts_in_current(name) && name.len() == 1 {
        assert(name =~= seq!['.']);
    }
    assert(body_start(name) == 0);
    assert(name.skip(0) =~= name);
    lemma_last_index_unique(name, '/', -1);
    assert(last_part(name, 0) =~= name);
    assert(stripped(name) == name);
    assert(name.take(0) =~= seq![]);
    assert(strip_back(seq![], 0) == Seq::<char>::empty());
}

/// Where a plain name was joined, cutting the last part leaves the path.
proof fn lemma_join_cut(p: Seq<char>, name: Seq<char>)
    requires
        is_plain_name(name),
        p.len() > 0,
    ensures
        ({
            let b = body_start(p);
            let j = join_path(p, name);
            let c = cut_point(j, b);
            &&& body_start(j) == b
            &&& stripped(j) == j
            &&& j.len() > b
            &&& last_part(j, b) == name
            &&& b <= c < j.len()
            &&& c > 0
            &&& c > 0 && b == 0 ==> j[c] == '/'
            &&& strip_back(j.take(c), b) == strip_back(p, b)
        }),
{
    let b = body_start(p);
    let j = join_path(p, name);
    assert forall|i: int| 0 <= i < name.len() implies name[i] != '/' by {
        assert(name.contains(name[i]));
    }
    let k = if p.last() == '/' { p.len() - 1 } else { p.len() as int };
    assert(j.take(k) =~= p.take(k));
    assert(j[k] == '/');
    assert(j.skip(k + 1) =~= name);
    assert(body_start(j) == b);
    if k < b {
        // The separator is the root itself.
        assert(p =~= seq!['/']);
        assert(j.skip(1) =~= name);
        lemma_last_index_unique(name, '/', -1);
        assert(last_part(j, 1) =~= name);
        assert(j.take(1) =~= p);
    } else {
        lemma_last_index_unique(j.skip(b), '/', k - b);
        assert(last_part(j, b) =~= name);
        assert(cut_point(j, b) == k);
        if k < p.len() {
            assert(p.skip(b).last() == '/');
            lemma_last_index_unique(p.skip(b), '/', k - b);
            assert(last_part(p, b) =~= seq![]);
            assert(strip_back(p, b) == strip_back(p.take(k), b));
        } else {
            assert(p.take(k) =~= p);
        }
    }
}

// ---------------------------------------------------------------------------
// Executable functions
// ---------------------------------------------------------------------------

pub fn absolute(p: &[char]) -> (r: bool)
    ensures
        r == is_absolute(p@),
{
    p.len() > 0 && p[0] == '/'
}

fn in_current(p: &[char]) -> (r: bool)
    ensures
        r == starts_in_current(p@),
{
    p.len() > 0 && p[0] == '.' && (p.len() == 1 || p[1] == '/')
}

fn body_at(p: &[char]) -> (b: usize)
    ensures
        b == body_start(p@),
        b <= p@.len(),
{
    if absolute(p) || in_current(p) {
        1
    } else {
        0
    }
}

/// Where the last part is cut off, and where it starts.
fn last_cut(p: &[char], b: usize) -> (r: (usize, usize))
    requires
        b < p@.len(),
    ensures
        r.0 == cut_point(p@, b as int),
        b <= r.0 <= r.1 <= p@.len(),
        r.0 < p@.len(),
        p@.skip(r.1 as int) == last_part(p@, b as int),
{
    let body = slice_subrange(p, b, p.len());
    proof {
        assert(body@ =~= p@.skip(b as int));
        lemma_cut_bounds(p@, b as int);
        lemma_last_index(p@.skip(b as int), '/');
    }
    match find_last(body, '/') {
        Some(i) => {
            assert(p@.skip(b + i + 1) =~= p@.skip(b as int).skip(i + 1));
            (b + i, b + i + 1)
        },
        None => {
            assert(p@.skip(b as int) =~= p@.skip(b as int).skip(0));
            (b, b)
        },
    }
}

fn strip_back_chars(p: &[char], b: usize) -> (r: &[char])
    requires
        b <= p@.len(),
    ensures
        r@ == strip_back(p@, b as int),
    decreases p@.len(),
{
    if p.len() <= b {
        return p;
    }
    let (cut, start) = last_cut(p, b);
    let part = slice_subrange(p, start, p.len());
    assert(part@ =~= p@.skip(start as int));
    if part.len() == 0 || (part.len() == 1 && part[0] == '.') {
        assert(part@.len() == 1 ==> part@ =~= seq!['.']);
        let shorter = slice_subrange(p, 0, cut);
        assert(shorter@ =~= p@.take(cut as int));
        strip_back_chars(shorter, b)
    } else {
        p
    }
}

pub fn components_of(p: &[char]) -> (r: Vec<Vec<char>>)
    ensures
        r@.len() == components(p@).len(),
        forall|i: int| 0 <= i < r@.len() ==> (#[trigger] r@[i])@ == components(p@)[i],
    decreases p@.len(),
{
    let b: usize = body_at(p);
    let q = strip_back_chars(p, b);
    proof {
        lemma_strip_back(p@, b as int);
    }
    let mut r: Vec<Vec<char>> = Vec::new();
    if q.len() <= b {
        if absolute(p) {
            let one: Vec<char> = vec!['/'];
            assert(one@ =~= seq!['/']);
            r.push(one);
        } else if in_current(p) {
            let one: Vec<char> = vec!['.'];
            assert(one@ =~= seq!['.']);
            r.push(one);
        }
        return r;
    }
    let (cut, start) = last_cut(q, b);
    let front = slice_subrange(q, 0, cut);
    assert(front@ =~= q@.take(cut as int));
    r = components_of(front);
    let part = chars_vec(slice_subrange(q, start, q.len()));
    assert(part@ =~= q@.skip(start as int));
    r.push(part);
    r
}

fn chars_vec(s: &[char]) -> (r: Vec<char>)
    ensures
        r@ == s@,
{
    let mut r: Vec<char> = Vec::new();
    let mut i: usize = 0;
    while i < s.len()
        invariant
            i <= s@.len(),
            r@ == s@.take(i as int),
        decreases s.len() - i,
    {
        r.push(s[i]);
        i += 1;
        assert(r@ =~= s@.take(i as int));
    }
    assert(s@.take(s@.len() as int) =~= s@);
    r
}

/// Whether two texts name the same path.
pub fn paths_equal(a: &str, b: &str) -> (r: bool)
    ensures
        r == same_path(a@, b@),
{
    let av = chars_of(a);
    let bv = chars_of(b);
    let x = components_of(av.as_slice());
    let y = components_of(bv.as_slice());
    if x.len() != y.len() {
        return false;
    }
    let mut i: usize = 0;
    while i < x.len()
        invariant
            i <= x@.len(),
            x@.len() == y@.len(),
            x@.len() == components(a@).len(),
            y@.len() == components(b@).len(),
            forall|k: int| 0 <= k < x@.len() ==> (#[trigger] x@[k])@ == components(a@)[k],
            forall|k: int| 0 <= k < y@.len() ==> (#[trigger] y@[k])@ == components(b@)[k],
            forall|k: int| 0 <= k < i ==> components(a@)[k] == components(b@)[k],
        decreases x.len() - i,
    {
        if !same_chars(x[i].as_slice(), y[i].as_slice()) {
            assert(x@[i as int]@ == components(a@)[i as int]);
            assert(y@[i as int]@ == components(b@)[i as int]);
            return false;
        }
        assert(x@[i as int]@ == components(a@)[i as int]);
        assert(y@[i as int]@ == components(b@)[i as int]);
        i += 1;
    }
    assert(components(a@) =~= components(b@));
    true
}

/// The path without its last component.
pub fn parent_of(p: &str) -> (r: Option<String>)
    ensures
        match r {
            Some(q) => parent_path(p@) == Some(q@),
            None => parent_path(p@) is None,
        },
{
    let v = chars_of(p);
    let b: usize = body_at(v.as_slice());
    let q = strip_back_chars(v.as_slice(), b);
    proof {
        lemma_strip_back(p@, b as int);
    }
    if q.len() > b {
        let (cut, _start) = last_cut(q, b);
        let front = slice_subrange(q, 0, cut);
        assert(front@ =~= q@.take(cut as int));
        Some(string_of(strip_back_chars(front, b)))
    } else if in_current(v.as_slice()) {
        let e = String::new();
        assert(e@ =~= seq![]);
        Some(e)
    } else {
        None
    }
}

/// The last component of a path.
pub fn file_name_of(p: &str) -> (r: Option<String>)
    ensures
        match r {
            Some(n) => file_name(p@) == Some(n@),
            None => file_name(p@) is None,
        },
{
    let v = chars_of(p);
    let b: usize = body_at(v.as_slice());
    let q = strip_back_chars(v.as_slice(), b);
    proof {
        lemma_strip_back(p@, b as int);
    }
    if q.len() > b {
        let (_cut, start) = last_cut(q, b);
        let part = slice_subrange(q, start, q.len());
        assert(part@ =~= q@.skip(start as int));
        if part.len() == 2 && part[0] == '.' && part[1] == '.' {
            assert(part@ =~= seq!['.', '.']);
            return None;
        }
        Some(string_of(part))
    } else {
        None
    }
}

/// The name without its extension.
pub fn stem_of_name(name: &str) -> (r: String)
    ensures
        r@ == stem_of(name@),
{
    let v = chars_of(name);
    match find_last(v.as_slice(), '.') {
        Some(k) => if k > 0 {
            let s = slice_subrange(v.as_slice(), 0, k);
            assert(s@ =~= name@.take(k as int));
            string_of(s)
        } else {
            string_of(v.as_slice())
        },
        None => string_of(v.as_slice()),
    }
}

/// What follows the last dot of a name.
pub fn extension_of_name(name: &str) -> (r: Option<String>)
    ensures
        match r {
            Some(e) => extension_of(name@) == Some(e@),
            None => extension_of(name@) is None,
        },
{
    let v = chars_of(name);
    let n: usize = v.len();
    match find_last(v.as_slice(), '.') {
        Some(k) => if k > 0 {
            let s = slice_subrange(v.as_slice(), k + 1, n);
            assert(s@ =~= name@.skip(k + 1));
            Some(string_of(s))
        } else {
            None
        },
        None => None,
    }
}

/// `name` resolved against `p`.
pub fn join_paths(p: &str, name: &str) -> (r: String)
    ensures
        r@ == join_path(p@, name@),
{
    let pv = chars_of(p);
    let nv = chars_of(name);
    let mut r = String::new();
    if !absolute(nv.as_slice()) {
        r.push_str(p);
        assert(r@ =~= p@);
        if pv.len() > 0 && pv[pv.len() - 1] != '/' {
            r.push('/');
        }
    }
    r.push_str(name);
    assert(r@ =~= join_path(p@, name@));
    r
}

/// The file name of a path is its last component, and an ordinary one; only the
/// empty path, the root, `.` and what ends in `..` have none.
pub proof fn file_name_is_last_component(p: Seq<char>)
    ensures
        match file_name(p) {
            Some(name) => {
                &&& is_plain_name(name)
                &&& components(p).len() > 0
                &&& components(p).last() == name
            },
            None => {
                ||| components(p).len() == 0
                ||| components(p) == seq![seq!['/']]
                ||| components(p) == seq![seq!['.']]
                ||| components(p).last() == seq!['.', '.']
            },
        },
{
    let b = body_start(p);
    let q = stripped(p);
    lemma_strip_back(p, b);
    if q.len() > b {
        lemma_cut_bounds(q, b);
        let body = q.skip(b);
        lemma_last_index(body, '/');
        let name = last_part(q, b);
        let i = last_index(body, '/');
        assert forall|k: int| 0 <= k < name.len() implies name[k] != '/' by {
            assert(name[k] == body[i + 1 + k]);
        }
    }
}

/// A separator at the end of a path says nothing.
pub proof fn trailing_separators_say_nothing(p: Seq<char>)
    requires
        p.len() > 0,
    ensures
        same_path(p + seq!['/'], p),
        parent_path(p + seq!['/']) == parent_path(p),
        file_name(p + seq!['/']) == file_name(p),
{
    let s = p + seq!['/'];
    let b = body_start(p);
    if p.len() == 1 && p[0] == '.' {
        assert(starts_in_current(s));
    }
    assert(body_start(s) == b);
    let body = s.skip(b);
    assert(body.len() > 0);
    assert(body.last() == '/');
    crate::text::lemma_last_index_unique(body, '/', body.len() - 1);
    assert(last_part(s, b) =~= seq![]);
    assert(cut_point(s, b) == p.len());
    assert(s.take(p.len() as int) =~= p);
    assert(stripped(s) == stripped(p));
    lemma_strip_back(p, b);
    lemma_stripped_components(s);
    lemma_stripped_components(p);
}

/// The root and the empty path have no names in them.
pub proof fn bare_paths_have_no_names()
    ensures
        components(seq!['/']) == seq![seq!['/']],
        components(Seq::<char>::empty()) == Seq::<Seq<char>>::empty(),
        parent_path(seq!['/']) is None,
        parent_path(Seq::<char>::empty()) is None,
{
    reveal_with_fuel(components, 2);
    reveal_with_fuel(strip_back, 2);
}

/// Every path has a parent but the empty one and the root.
pub proof fn only_bare_paths_lack_a_parent(p: Seq<char>)
    ensures
        parent_path(p) is None <==> components(p).len() == 0 || components(p) == seq![seq!['/']],
{
    let b = body_start(p);
    let q = stripped(p);
    lemma_strip_back(p, b);
    if q.len() > b {
        lemma_cut_bounds(q, b);
        let body = q.skip(b);
        lemma_last_index(body, '/');
        let name = last_part(q, b);
        let i = last_index(body, '/');
        assert forall|k: int| 0 <= k < name.len() implies name[k] != '/' by {
            assert(name[k] == body[i + 1 + k]);
        }
        assert(components(p).last() == name);
        if components(p) == seq![seq!['/']] {
            assert(components(p).last() == seq!['/']);
            assert(name[0] == '/');
        }
    } else if starts_in_current(p) {
        assert(components(p)[0][0] == '.');
    }
}

/// A name is put behind a path with one separator between them, and none where
/// the path is empty or ends in one; an absolute name stands alone.
pub proof fn names_follow_a_separator(p: Seq<char>, name: Seq<char>)
    ensures
        name.len() > 0 && name[0] == '/' ==> join_path(p, name) == name,
        name.len() > 0 && name[0] != '/' && p.len() == 0 ==> join_path(p, name) == name,
        name.len() > 0 && name[0] != '/' && p.len() > 0 && p.last() == '/' ==> join_path(p, name)
            == p + name,
        name.len() > 0 && name[0] != '/' && p.len() > 0 && p.last() != '/' ==> join_path(p, name)
            == p + seq!['/'] + name,
{
}

/// What follows a separator is one more component, whatever it is called, and
/// `..` is one too; `.` is none.
pub proof fn components_are_what_separators_part(p: Seq<char>, name: Seq<char>)
    requires
        p.len() > 0,
        is_plain_name(name),
    ensures
        components(p + seq!['/'] + name) == components(p).push(name),
        components(p + seq!['/', '.', '.']) == components(p).push(seq!['.', '.']),
        components(p + seq!['/', '.']) == components(p),
{
    lemma_more_parts(p, name);
    assert(p + seq!['/', '.', '.'] =~= p + seq!['/'] + seq!['.', '.']);
    lemma_more_parts(p, seq!['.', '.']);
    let s = p + seq!['/', '.'];
    let b = body_start(p);
    assert(body_start(s) == b) by {
        if p.len() == 1 && p[0] == '.' {
            assert(starts_in_current(s));
        }
    }
    let body = s.skip(b);
    crate::text::lemma_last_index_unique(body, '/', body.len() - 2);
    assert(last_part(s, b) =~= seq!['.']);
    assert(cut_point(s, b) == p.len());
    assert(s.take(p.len() as int) =~= p);
    assert(stripped(s) == stripped(p));
    lemma_strip_back(p, b);
    lemma_stripped_components(s);
    lemma_stripped_components(p);
}

proof fn lemma_more_parts(p: Seq<char>, name: Seq<char>)
    requires
        p.len() > 0,
        name.len() > 0,
        name != seq!['.'],
        !name.contains('/'),
    ensures
        components(p + seq!['/'] + name) == components(p).push(name),
{
    let s = p + seq!['/'] + name;
    let b = body_start(p);
    assert(body_start(s) == b) by {
        if p.len() == 1 && p[0] == '.' {
            assert(starts_in_current(s));
        }
    }
    let body = s.skip(b);
    let i = p.len() - b;
    assert forall|k: int| i < k < body.len() implies body[k] != '/' by {
        assert(name.contains(name[k - i - 1]));
        assert(body[k] == name[k - i - 1]);
    }
    crate::text::lemma_last_index_unique(body, '/', i);
    assert(last_part(s, b) =~= name);
    assert(cut_point(s, b) == p.len());
    assert(s.take(p.len() as int) =~= p);
    assert(stripped(s) == s);
}

/// A path of one name has that one component; behind the root it follows the
/// root.
pub proof fn single_names_are_components(name: Seq<char>)
    requires
        is_plain_name(name),
    ensures
        components(name) == seq![name],
        components(seq!['/'] + name) == seq![seq!['/'], name],
{
    lemma_plain_alone(name);
    bare_paths_have_no_names();
    let root = seq!['/'];
    assert(join_path(root, name) =~= root + name);
    join_then_parent(root, name);
}

/// A name is its stem, a dot and its extension; a name without a dot, or with
/// none but the first character, is its stem and has no extension.
pub proof fn names_are_stem_and_extension(stem: Seq<char>, extension: Seq<char>)
    requires
        stem.len() > 0,
        !extension.contains('.'),
    ensures
        stem_of(stem + seq!['.'] + extension) == stem,
        extension_of(stem + seq!['.'] + extension) == Some(extension),
        stem_of(extension) == extension,
        extension_of(extension) is None,
        stem_of(seq!['.'] + extension) == seq!['.'] + extension,
        extension_of(seq!['.'] + extension) is None,
{
    assert forall|k: int| 0 <= k < extension.len() implies extension[k] != '.' by {
        assert(extension.contains(extension[k]));
    }
    let a = stem + seq!['.'] + extension;
    assert(a.skip(stem.len() as int + 1) =~= extension);
    assert(a.take(stem.len() as int) =~= stem);
    assert forall|k: int| stem.len() < k < a.len() implies a[k] != '.' by {
        assert(a[k] == extension[k - stem.len() - 1]);
    }
    crate::text::lemma_last_index_unique(a, '.', stem.len() as int);
    crate::text::lemma_last_index_unique(extension, '.', -1);
    let b = seq!['.'] + extension;
    crate::text::lemma_last_index_unique(b, '.', 0);
}

} // verus!
