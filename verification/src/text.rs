//! Text over mathematical character sequences: trimming, splitting, searching,
//! decimal numbers and the lexicographic order.

use vstd::prelude::*;
use vstd::slice::slice_subrange;

verus! {

/// `String::push` appends one character.
pub assume_specification[ String::push ](s: &mut String, c: char)
    ensures
        final(s)@ == old(s)@.push(c),
;

/// `String::push_str` appends the whole slice.
pub assume_specification[ String::push_str ](s: &mut String, other: &str)
    ensures
        final(s)@ == old(s)@ + other@,
;

/// The Unicode lower-case form of a text, as `str::to_lowercase` computes it.
pub uninterp spec fn lowercase(s: Seq<char>) -> Seq<char>;

/// `str::to_lowercase`: its result is a function of the text alone, and on
/// ASCII text it maps `A`..`Z` to `a`..`z` and keeps every other character.
pub assume_specification[ str::to_lowercase ](s: &str) -> (r: String)
    ensures
        r@ == lowercase(s@),
        vstd::utf8::is_ascii_chars(s@) ==> r@ == ascii_lower(s@),
;

/// The lower-case form of an ASCII letter; every other character is kept.
pub open spec fn ascii_lower_char(c: char) -> char {
    if 'A' <= c && c <= 'Z' {
        ((c as u32) + 32) as char
    } else {
        c
    }
}

/// `ascii_lower_char` on every character.
pub open spec fn ascii_lower(s: Seq<char>) -> Seq<char> {
    Seq::new(s.len(), |i: int| ascii_lower_char(s[i]))
}

/// A text with its ASCII letters in upper case.
pub open spec fn ascii_upper(s: Seq<char>) -> Seq<char> {
    s.map_values(
        |c: char|
            if 'a' <= c && c <= 'z' {
                (c as u32 - 32) as char
            } else {
                c
            },
    )
}

/// The characters with the Unicode `White_Space` property.
pub open spec fn is_white(c: char) -> bool {
    let u = c as u32;
    ||| 0x9 <= u <= 0xd
    ||| u == 0x20
    ||| u == 0x85
    ||| u == 0xa0
    ||| u == 0x1680
    ||| 0x2000 <= u <= 0x200a
    ||| u == 0x2028
    ||| u == 0x2029
    ||| u == 0x202f
    ||| u == 0x205f
    ||| u == 0x3000
}

/// An ASCII digit.
pub open spec fn is_digit(c: char) -> bool {
    '0' <= c && c <= '9'
}

/// The text without its leading white space.
pub open spec fn trim_start(s: Seq<char>) -> Seq<char>
    decreases s.len(),
{
    if s.len() > 0 && is_white(s[0]) {
        trim_start(s.skip(1))
    } else {
        s
    }
}

/// The text without its trailing white space.
pub open spec fn trim_end(s: Seq<char>) -> Seq<char>
    decreases s.len(),
{
    if s.len() > 0 && is_white(s.last()) {
        trim_end(s.drop_last())
    } else {
        s
    }
}

/// The text without white space at either end.
pub open spec fn trim(s: Seq<char>) -> Seq<char> {
    trim_end(trim_start(s))
}

/// The index of the first `c`, or the length where there is none.
pub open spec fn first_index(s: Seq<char>, c: char) -> int
    decreases s.len(),
{
    if s.len() == 0 || s[0] == c {
        0
    } else {
        1 + first_index(s.skip(1), c)
    }
}

/// The index of the last `c`, or -1 where there is none.
pub open spec fn last_index(s: Seq<char>, c: char) -> int
    decreases s.len(),
{
    if s.len() == 0 {
        -1
    } else if s.last() == c {
        s.len() - 1
    } else {
        last_index(s.drop_last(), c)
    }
}

/// At most `n` parts; the last one keeps its separators.
pub open spec fn splitn(s: Seq<char>, n: nat, c: char) -> Seq<Seq<char>>
    decreases n,
{
    let i = first_index(s, c);
    if n == 0 {
        seq![]
    } else if n >= 2 && 0 <= i < s.len() {
        seq![s.take(i)] + splitn(s.skip(i + 1), (n - 1) as nat, c)
    } else {
        seq![s]
    }
}

/// A line without the carriage return before its line feed.
pub open spec fn strip_cr(s: Seq<char>) -> Seq<char> {
    if s.len() > 0 && s.last() == '\r' {
        s.drop_last()
    } else {
        s
    }
}

/// The lines of a text. A line ends in `\n` or `\r\n`; the last one may lack
/// its ending, and an empty rest after the last ending is no line.
pub open spec fn lines(s: Seq<char>) -> Seq<Seq<char>>
    decreases s.len(),
{
    let i = first_index(s, '\n');
    if s.len() == 0 {
        seq![]
    } else if 0 <= i < s.len() {
        seq![strip_cr(s.take(i))] + lines(s.skip(i + 1))
    } else {
        seq![s]
    }
}

/// The length of the longest prefix without white space.
pub open spec fn word_len(s: Seq<char>) -> int
    decreases s.len(),
{
    if s.len() == 0 || is_white(s[0]) {
        0
    } else {
        1 + word_len(s.skip(1))
    }
}

/// The longest runs of characters that are not white space.
pub open spec fn words(s: Seq<char>) -> Seq<Seq<char>>
    decreases s.len(),
{
    if s.len() == 0 {
        seq![]
    } else if is_white(s[0]) {
        words(s.skip(1))
    } else {
        let n = word_len(s);
        if 0 < n <= s.len() {
            seq![s.take(n)] + words(s.skip(n))
        } else {
            seq![]
        }
    }
}

/// The text before the first white space and the text after it.
pub open spec fn split_white(s: Seq<char>) -> Option<(Seq<char>, Seq<char>)> {
    let n = word_len(s);
    if 0 <= n < s.len() {
        Some((s.take(n), s.skip(n + 1)))
    } else {
        None
    }
}

/// `n` occurs in `s` at index `i`.
pub open spec fn occurs_at(s: Seq<char>, n: Seq<char>, i: int) -> bool {
    0 <= i <= s.len() - n.len() && s.subrange(i, i + n.len()) == n
}

/// `n` occurs somewhere in `s`.
pub open spec fn contains_text(s: Seq<char>, n: Seq<char>) -> bool {
    exists|i: int| occurs_at(s, n, i)
}

/// The value of a sequence of ASCII digits.
pub open spec fn digits_value(s: Seq<char>) -> nat
    decreases s.len(),
{
    if s.len() == 0 {
        0
    } else {
        10 * digits_value(s.drop_last()) + ((s.last() as u32) - ('0' as u32)) as nat
    }
}

pub open spec fn all_digits(s: Seq<char>) -> bool {
    forall|i: int| 0 <= i < s.len() ==> is_digit(#[trigger] s[i])
}

/// The digits of a number literal: the text without one leading `+`.
pub open spec fn number_digits(s: Seq<char>) -> Seq<char> {
    if s.len() > 0 && s[0] == '+' {
        s.skip(1)
    } else {
        s
    }
}

/// The unsigned number that a text denotes: digits, at least one, perhaps
/// after a `+`, with a value up to `max`.
pub open spec fn parse_number(s: Seq<char>, max: nat) -> Option<nat> {
    let d = number_digits(s);
    if d.len() > 0 && all_digits(d) && digits_value(d) <= max {
        Some(digits_value(d))
    } else {
        None
    }
}

/// A digit's character.
pub open spec fn digit_char(d: nat) -> char {
    (48 + d) as char
}

/// A number in decimal, without leading zeros.
pub open spec fn decimal(n: nat) -> Seq<char>
    decreases n,
{
    if n < 10 {
        seq![digit_char(n)]
    } else {
        decimal(n / 10).push(digit_char(n % 10))
    }
}

/// The order of texts by code points, which is that of their UTF-8 bytes.
pub open spec fn text_less(a: Seq<char>, b: Seq<char>) -> bool
    decreases a.len(),
{
    if b.len() == 0 {
        false
    } else if a.len() == 0 {
        true
    } else if a[0] != b[0] {
        a[0] < b[0]
    } else {
        text_less(a.skip(1), b.skip(1))
    }
}

/// The parts joined with `sep` between them.
pub open spec fn join_texts(parts: Seq<Seq<char>>, sep: Seq<char>) -> Seq<char>
    decreases parts.len(),
{
    if parts.len() == 0 {
        seq![]
    } else if parts.len() == 1 {
        parts[0]
    } else {
        join_texts(parts.drop_last(), sep) + sep + parts.last()
    }
}

/// The texts of a sequence of slices.
pub open spec fn slice_texts(v: Seq<&[char]>) -> Seq<Seq<char>> {
    Seq::new(v.len(), |i: int| v[i]@)
}

/// The texts of a sequence of strings.
pub open spec fn texts(v: Seq<String>) -> Seq<Seq<char>> {
    Seq::new(v.len(), |i: int| v[i]@)
}

// ---------------------------------------------------------------------------
// Lemmas
// ---------------------------------------------------------------------------

pub proof fn lemma_first_index(s: Seq<char>, c: char)
    ensures
        0 <= first_index(s, c) <= s.len(),
        first_index(s, c) < s.len() ==> s[first_index(s, c)] == c,
        forall|j: int| 0 <= j < first_index(s, c) ==> s[j] != c,
    decreases s.len(),
{
    if s.len() == 0 || s[0] == c {
    } else {
        lemma_first_index(s.skip(1), c);
        assert forall|j: int| 0 <= j < first_index(s, c) implies s[j] != c by {
            if j > 0 {
                assert(s.skip(1)[j - 1] == s[j]);
            }
        }
    }
}

/// Only one index can be the first one of a character.
pub proof fn lemma_first_index_unique(s: Seq<char>, c: char, i: int)
    requires
        0 <= i <= s.len(),
        i < s.len() ==> s[i] == c,
        forall|j: int| 0 <= j < i ==> s[j] != c,
    ensures
        first_index(s, c) == i,
{
    lemma_first_index(s, c);
}

pub proof fn lemma_last_index(s: Seq<char>, c: char)
    ensures
        -1 <= last_index(s, c) < s.len(),
        last_index(s, c) >= 0 ==> s[last_index(s, c)] == c,
        forall|j: int| last_index(s, c) < j < s.len() ==> s[j] != c,
    decreases s.len(),
{
    if s.len() > 0 && s.last() != c {
        lemma_last_index(s.drop_last(), c);
        assert forall|j: int| last_index(s, c) < j < s.len() implies s[j] != c by {
            if j < s.len() - 1 {
                assert(s.drop_last()[j] == s[j]);
            }
        }
    }
}

/// Only one index can be the last one of a character.
pub proof fn lemma_last_index_unique(s: Seq<char>, c: char, i: int)
    requires
        -1 <= i < s.len(),
        i >= 0 ==> s[i] == c,
        forall|j: int| i < j < s.len() ==> s[j] != c,
    ensures
        last_index(s, c) == i,
{
    lemma_last_index(s, c);
}

pub proof fn lemma_word_len(s: Seq<char>)
    ensures
        0 <= word_len(s) <= s.len(),
        word_len(s) < s.len() ==> is_white(s[word_len(s)]),
        forall|j: int| 0 <= j < word_len(s) ==> !is_white(#[trigger] s[j]),
    decreases s.len(),
{
    if s.len() == 0 || is_white(s[0]) {
    } else {
        lemma_word_len(s.skip(1));
        assert forall|j: int| 0 <= j < word_len(s) implies !is_white(#[trigger] s[j]) by {
            if j > 0 {
                assert(s.skip(1)[j - 1] == s[j]);
            }
        }
    }
}

pub proof fn lemma_word_len_unique(s: Seq<char>, n: int)
    requires
        0 <= n <= s.len(),
        n < s.len() ==> is_white(s[n]),
        forall|j: int| 0 <= j < n ==> !is_white(#[trigger] s[j]),
    ensures
        word_len(s) == n,
{
    lemma_word_len(s);
    if word_len(s) < n {
        assert(!is_white(s[word_len(s)]));
    } else if n < word_len(s) {
        assert(!is_white(s[n]));
    }
}

pub proof fn lemma_trim_start_skips(s: Seq<char>, k: int)
    requires
        0 <= k <= s.len(),
        forall|j: int| 0 <= j < k ==> is_white(#[trigger] s[j]),
    ensures
        trim_start(s) == trim_start(s.skip(k)),
    decreases k,
{
    if k > 0 {
        assert(is_white(s[0]));
        assert forall|j: int| 0 <= j < k - 1 implies is_white(#[trigger] s.skip(1)[j]) by {
            assert(is_white(s[j + 1]));
        }
        lemma_trim_start_skips(s.skip(1), k - 1);
        assert(s.skip(1).skip(k - 1) =~= s.skip(k));
    } else {
        assert(s.skip(0) =~= s);
    }
}

/// The order of texts is total and has no cycle of two.
pub proof fn lemma_text_less_total(a: Seq<char>, b: Seq<char>)
    ensures
        !(text_less(a, b) && text_less(b, a)),
        !text_less(a, b) && !text_less(b, a) ==> a == b,
        a == b ==> !text_less(a, b),
    decreases a.len(),
{
    if a.len() > 0 && b.len() > 0 && a[0] == b[0] {
        lemma_text_less_total(a.skip(1), b.skip(1));
        if a.skip(1) == b.skip(1) {
            assert forall|i: int| 0 <= i < a.len() implies a[i] == b[i] by {
                if i > 0 {
                    assert(a.skip(1)[i - 1] == b.skip(1)[i - 1]);
                }
            }
            assert(a.len() == a.skip(1).len() + 1);
            assert(a =~= b);
        }
    } else if a.len() == 0 && b.len() == 0 {
        assert(a =~= b);
    }
}

pub proof fn lemma_text_less_transitive(a: Seq<char>, b: Seq<char>, c: Seq<char>)
    requires
        text_less(a, b),
        text_less(b, c),
    ensures
        text_less(a, c),
    decreases a.len(),
{
    if a.len() > 0 && b.len() > 0 && c.len() > 0 && a[0] == b[0] && b[0] == c[0] {
        lemma_text_less_transitive(a.skip(1), b.skip(1), c.skip(1));
    }
}

// ---------------------------------------------------------------------------
// Executable functions
// ---------------------------------------------------------------------------

/// The characters of a text.
pub fn chars_of(s: &str) -> (r: Vec<char>)
    ensures
        r@ == s@,
{
    let mut r: Vec<char> = Vec::new();
    for c in it: s.chars()
        invariant
            it.seq() == s@,
            r@ == s@.take(it.index() as int),
    {
        assert(s@.take(it.index() as int + 1) =~= s@.take(it.index() as int).push(c));
        r.push(c);
    }
    assert(s@.take(s@.len() as int) =~= s@);
    r
}

/// The text made of the characters.
pub fn string_of(v: &[char]) -> (r: String)
    ensures
        r@ == v@,
{
    let mut r = String::new();
    let mut i: usize = 0;
    while i < v.len()
        invariant
            i <= v@.len(),
            r@ == v@.take(i as int),
        decreases v.len() - i,
    {
        r.push(v[i]);
        assert(v@.take(i as int + 1) =~= v@.take(i as int).push(v@[i as int]));
        i += 1;
    }
    assert(v@.take(v@.len() as int) =~= v@);
    r
}

/// The text as a `String`.
pub fn string_from(s: &str) -> (r: String)
    ensures
        r@ == s@,
{
    let mut r = String::new();
    r.push_str(s);
    assert(r@ =~= s@);
    r
}

pub fn concat2(a: &str, b: &str) -> (r: String)
    ensures
        r@ == a@ + b@,
{
    let mut r = string_from(a);
    r.push_str(b);
    r
}

pub fn concat3(a: &str, b: &str, c: &str) -> (r: String)
    ensures
        r@ == a@ + b@ + c@,
{
    let mut r = string_from(a);
    r.push_str(b);
    r.push_str(c);
    r
}

/// The index of the first `c`, or the length.
pub fn find_first(s: &[char], c: char) -> (i: usize)
    ensures
        i == first_index(s@, c),
        i <= s@.len(),
{
    let mut i: usize = 0;
    while i < s.len() && s[i] != c
        invariant
            i <= s@.len(),
            forall|j: int| 0 <= j < i ==> s@[j] != c,
        decreases s.len() - i,
    {
        i += 1;
    }
    proof {
        lemma_first_index_unique(s@, c, i as int);
    }
    i
}

/// The index of the last `c`, if any.
pub fn find_last(s: &[char], c: char) -> (r: Option<usize>)
    ensures
        match r {
            Some(i) => i == last_index(s@, c) && i < s@.len(),
            None => last_index(s@, c) == -1,
        },
{
    let mut i: usize = s.len();
    while i > 0
        invariant
            i <= s@.len(),
            forall|j: int| i <= j < s@.len() ==> s@[j] != c,
        decreases i,
    {
        if s[i - 1] == c {
            proof {
                lemma_last_index_unique(s@, c, i as int - 1);
            }
            return Some(i - 1);
        }
        i -= 1;
    }
    proof {
        lemma_last_index_unique(s@, c, -1);
    }
    None
}

pub fn is_white_char(c: char) -> (b: bool)
    ensures
        b == is_white(c),
{
    let u = c as u32;
    (0x9 <= u && u <= 0xd) || u == 0x20 || u == 0x85 || u == 0xa0 || u == 0x1680 || (0x2000 <= u
        && u <= 0x200a) || u == 0x2028 || u == 0x2029 || u == 0x202f || u == 0x205f || u == 0x3000
}

pub fn is_digit_char(c: char) -> (b: bool)
    ensures
        b == is_digit(c),
{
    '0' <= c && c <= '9'
}

pub fn trim_start_chars(s: &[char]) -> (r: &[char])
    ensures
        r@ == trim_start(s@),
{
    let mut i: usize = 0;
    while i < s.len() && is_white_char(s[i])
        invariant
            i <= s@.len(),
            forall|j: int| 0 <= j < i ==> is_white(#[trigger] s@[j]),
        decreases s.len() - i,
    {
        i += 1;
    }
    proof {
        lemma_trim_start_skips(s@, i as int);
        assert(s@.skip(i as int) =~= s@.subrange(i as int, s@.len() as int));
        if i < s@.len() {
            assert(s@.skip(i as int)[0] == s@[i as int]);
        }
    }
    slice_subrange(s, i, s.len())
}

pub fn trim_end_chars(s: &[char]) -> (r: &[char])
    ensures
        r@ == trim_end(s@),
{
    let mut n: usize = s.len();
    proof {
        assert(s@.take(s@.len() as int) =~= s@);
    }
    while n > 0 && is_white_char(s[n - 1])
        invariant
            n <= s@.len(),
            trim_end(s@) == trim_end(s@.take(n as int)),
        decreases n,
    {
        proof {
            assert(s@.take(n as int).drop_last() =~= s@.take(n as int - 1));
        }
        n -= 1;
    }
    assert(s@.subrange(0, n as int) =~= s@.take(n as int));
    slice_subrange(s, 0, n)
}

pub fn trim_chars(s: &[char]) -> (r: &[char])
    ensures
        r@ == trim(s@),
{
    trim_end_chars(trim_start_chars(s))
}

/// The text without white space at either end.
pub fn trim_text(s: &str) -> (r: String)
    ensures
        r@ == trim(s@),
{
    let v = chars_of(s);
    string_of(trim_chars(v.as_slice()))
}

/// Whether two character slices hold the same text.
pub fn same_chars(a: &[char], b: &[char]) -> (r: bool)
    ensures
        r == (a@ == b@),
{
    if a.len() != b.len() {
        return false;
    }
    let mut i: usize = 0;
    while i < a.len()
        invariant
            i <= a@.len(),
            a@.len() == b@.len(),
            forall|j: int| 0 <= j < i ==> a@[j] == b@[j],
        decreases a.len() - i,
    {
        if a[i] != b[i] {
            return false;
        }
        i += 1;
    }
    assert(a@ =~= b@);
    true
}

/// Whether two texts are the same.
pub fn same_text(a: &str, b: &str) -> (r: bool)
    ensures
        r == (a@ == b@),
{
    let x = chars_of(a);
    let y = chars_of(b);
    same_chars(x.as_slice(), y.as_slice())
}

pub fn has_prefix(s: &[char], p: &[char]) -> (r: bool)
    ensures
        r == p@.is_prefix_of(s@),
{
    if p.len() > s.len() {
        return false;
    }
    assert(s@.subrange(0, p@.len() as int) =~= s@.take(p@.len() as int));
    same_chars(slice_subrange(s, 0, p.len()), p)
}

pub fn has_suffix(s: &[char], p: &[char]) -> (r: bool)
    ensures
        r == p@.is_suffix_of(s@),
{
    if p.len() > s.len() {
        return false;
    }
    same_chars(slice_subrange(s, s.len() - p.len(), s.len()), p)
}

/// Whether `n` occurs in `s`.
pub fn has_text(s: &[char], n: &[char]) -> (r: bool)
    ensures
        r == contains_text(s@, n@),
{
    if n.len() > s.len() {
        return false;
    }
    let total: usize = s.len();
    let last: usize = total - n.len();
    let mut i: usize = 0;
    while i <= last
        invariant
            total == s@.len(),
            n@.len() <= s@.len(),
            last == s@.len() - n@.len(),
            i <= last + 1,
            forall|j: int| 0 <= j < i ==> !occurs_at(s@, n@, j),
        decreases last + 1 - i,
    {
        if same_chars(slice_subrange(s, i, i + n.len()), n) {
            assert(occurs_at(s@, n@, i as int));
            return true;
        }
        if i == last {
            assert forall|j: int| !occurs_at(s@, n@, j) by {}
            return false;
        }
        i += 1;
    }
    false
}

/// Whether `needle` occurs in `hay`.
pub fn text_contains(hay: &str, needle: &str) -> (r: bool)
    ensures
        r == contains_text(hay@, needle@),
{
    let h = chars_of(hay);
    let n = chars_of(needle);
    has_text(h.as_slice(), n.as_slice())
}

pub fn ascii_lower_of(c: char) -> (r: char)
    ensures
        r == ascii_lower_char(c),
{
    if 'A' <= c && c <= 'Z' {
        let u: u8 = c as u8;
        assert((c as u8) as u32 == c as u32) by {
            let x = c as u32;
            assert(x <= 90);
        }
        let l: u8 = u + 32;
        l as char
    } else {
        c
    }
}

pub fn ascii_lower_chars(s: &[char]) -> (r: Vec<char>)
    ensures
        r@ == ascii_lower(s@),
{
    let mut r: Vec<char> = Vec::new();
    let mut i: usize = 0;
    while i < s.len()
        invariant
            i <= s@.len(),
            r@ == ascii_lower(s@).take(i as int),
        decreases s.len() - i,
    {
        r.push(ascii_lower_of(s[i]));
        i += 1;
        assert(r@ =~= ascii_lower(s@).take(i as int));
    }
    assert(ascii_lower(s@).take(s@.len() as int) =~= ascii_lower(s@));
    r
}

pub fn ascii_upper_chars(s: &[char]) -> (r: Vec<char>)
    ensures
        r@ == ascii_upper(s@),
{
    let mut r: Vec<char> = Vec::new();
    let mut i: usize = 0;
    while i < s.len()
        invariant
            i <= s@.len(),
            r@ == ascii_upper(s@).take(i as int),
        decreases s.len() - i,
    {
        let c = s[i];
        if 'a' <= c && c <= 'z' {
            let u: u8 = c as u8;
            assert((c as u8) as u32 == c as u32) by {
                let x = c as u32;
                assert(x <= 122);
            }
            r.push((u - 32) as char);
        } else {
            r.push(c);
        }
        i += 1;
        assert(r@ =~= ascii_upper(s@).take(i as int));
    }
    assert(ascii_upper(s@).take(s@.len() as int) =~= ascii_upper(s@));
    r
}

/// The unsigned number that a text denotes, if it is at most `max`.
pub fn parse_number_chars(s: &[char], max: u64) -> (r: Option<u64>)
    ensures
        match r {
            Some(n) => parse_number(s@, max as nat) == Some(n as nat),
            None => parse_number(s@, max as nat) is None,
        },
{
    let mut start: usize = 0;
    if s.len() > 0 && s[0] == '+' {
        start = 1;
    }
    let ghost d = number_digits(s@);
    assert(d =~= s@.skip(start as int));
    if start == s.len() {
        return None;
    }
    let mut n: u64 = 0;
    let mut i: usize = start;
    let mut over: bool = false;
    while i < s.len()
        invariant
            start <= i <= s@.len(),
            d == s@.skip(start as int),
            d == number_digits(s@),
            forall|j: int| start <= j < i ==> is_digit(#[trigger] s@[j]),
            !over ==> n == digits_value(d.take(i - start)) && n <= max,
            over ==> digits_value(d.take(i - start)) > max,
        decreases s.len() - i,
    {
        let c = s[i];
        if !is_digit_char(c) {
            assert(!is_digit(d[i - start]));
            return None;
        }
        proof {
            assert(d.take(i - start + 1).drop_last() =~= d.take(i - start));
            assert(d.take(i - start + 1).last() == c);
        }
        let v: u64 = c as u64 - '0' as u64;
        if !over {
            if v > max || n > (max - v) / 10 {
                over = true;
            } else {
                n = n * 10 + v;
            }
        }
        i += 1;
    }
    assert(d.take(d.len() as int) =~= d);
    assert forall|j: int| 0 <= j < d.len() implies is_digit(#[trigger] d[j]) by {
        assert(d[j] == s@[j + start]);
    }
    if over {
        None
    } else {
        Some(n)
    }
}

/// The number in decimal.
pub fn decimal_chars(n: u64) -> (r: Vec<char>)
    ensures
        r@ == decimal(n as nat),
    decreases n,
{
    if n < 10 {
        let mut r: Vec<char> = Vec::new();
        r.push((48 + n as u8) as char);
        assert(r@ =~= seq![digit_char(n as nat)]);
        r
    } else {
        let mut r = decimal_chars(n / 10);
        r.push((48 + (n % 10) as u8) as char);
        r
    }
}

/// The number in decimal.
pub fn decimal_text(n: u64) -> (r: String)
    ensures
        r@ == decimal(n as nat),
{
    let v = decimal_chars(n);
    string_of(v.as_slice())
}

/// Whether `a` comes before `b` in the order of texts.
pub fn chars_less(a: &[char], b: &[char]) -> (r: bool)
    ensures
        r == text_less(a@, b@),
{
    let mut i: usize = 0;
    proof {
        assert(a@.skip(0) =~= a@);
        assert(b@.skip(0) =~= b@);
    }
    while i < a.len() && i < b.len()
        invariant
            i <= a@.len(),
            i <= b@.len(),
            text_less(a@, b@) == text_less(a@.skip(i as int), b@.skip(i as int)),
        decreases a.len() - i,
    {
        if a[i] != b[i] {
            return a[i] < b[i];
        }
        proof {
            assert(a@.skip(i as int).skip(1) =~= a@.skip(i as int + 1));
            assert(b@.skip(i as int).skip(1) =~= b@.skip(i as int + 1));
        }
        i += 1;
    }
    i < b.len()
}

/// The lines of a text.
pub fn split_lines(s: &[char]) -> (r: Vec<&[char]>)
    ensures
        slice_texts(r@) == lines(s@),
{
    let mut r: Vec<&[char]> = Vec::new();
    let mut pos: usize = 0;
    proof {
        assert(s@.skip(0) =~= s@);
        assert(slice_texts(r@) + lines(s@) =~= lines(s@));
    }
    while pos < s.len()
        invariant
            pos <= s@.len(),
            slice_texts(r@) + lines(s@.skip(pos as int)) == lines(s@),
        decreases s.len() - pos,
    {
        let rest = slice_subrange(s, pos, s.len());
        let ghost sk = s@.skip(pos as int);
        let ghost done = slice_texts(r@);
        assert(rest@ =~= sk);
        let i = find_first(rest, '\n');
        if i < rest.len() {
            let line = slice_subrange(rest, 0, i);
            assert(line@ =~= sk.take(i as int));
            let line = if line.len() > 0 && line[line.len() - 1] == '\r' {
                let cut = slice_subrange(line, 0, line.len() - 1);
                assert(cut@ =~= line@.drop_last());
                cut
            } else {
                line
            };
            r.push(line);
            proof {
                let rest2 = s@.skip(pos + i + 1);
                assert(sk.skip(i as int + 1) =~= rest2);
                assert(slice_texts(r@) =~= done.push(line@));
                assert(done + (seq![line@] + lines(rest2)) =~= slice_texts(r@) + lines(rest2));
            }
            pos = pos + i + 1;
        } else {
            r.push(rest);
            proof {
                let rest2 = s@.skip(s@.len() as int);
                assert(rest2 =~= seq![]);
                assert(slice_texts(r@) =~= done.push(rest@));
                assert(done + seq![sk] =~= slice_texts(r@) + lines(rest2));
            }
            pos = s.len();
        }
    }
    proof {
        assert(s@.skip(pos as int) =~= seq![]);
        assert(slice_texts(r@) + lines(s@.skip(pos as int)) =~= slice_texts(r@));
    }
    r
}

/// At most `n` parts of a text.
pub fn splitn_chars(s: &[char], n: usize, c: char) -> (r: Vec<&[char]>)
    ensures
        slice_texts(r@) == splitn(s@, n as nat, c),
{
    let mut r: Vec<&[char]> = Vec::new();
    if n == 0 {
        assert(slice_texts(r@) =~= splitn(s@, 0, c));
        return r;
    }
    let mut pos: usize = 0;
    let mut left: usize = n;
    proof {
        assert(s@.skip(0) =~= s@);
        assert(slice_texts(r@) + splitn(s@, n as nat, c) =~= splitn(s@, n as nat, c));
    }
    loop
        invariant
            pos <= s@.len(),
            1 <= left <= n,
            slice_texts(r@) + splitn(s@.skip(pos as int), left as nat, c) == splitn(
                s@,
                n as nat,
                c,
            ),
        decreases left,
    {
        let rest = slice_subrange(s, pos, s.len());
        let ghost sk = s@.skip(pos as int);
        let ghost done = slice_texts(r@);
        assert(rest@ =~= sk);
        let i = find_first(rest, c);
        if left >= 2 && i < rest.len() {
            let part = slice_subrange(rest, 0, i);
            assert(part@ =~= sk.take(i as int));
            r.push(part);
            proof {
                let rest2 = s@.skip(pos + i + 1);
                let m = (left - 1) as nat;
                assert(sk.skip(i as int + 1) =~= rest2);
                assert(slice_texts(r@) =~= done.push(part@));
                assert(done + (seq![part@] + splitn(rest2, m, c)) =~= slice_texts(r@) + splitn(
                    rest2,
                    m,
                    c,
                ));
            }
            pos = pos + i + 1;
            left -= 1;
        } else {
            r.push(rest);
            assert(slice_texts(r@) =~= done + seq![sk]);
            return r;
        }
    }
}

/// The words of a text.
pub fn split_words(s: &[char]) -> (r: Vec<&[char]>)
    ensures
        slice_texts(r@) == words(s@),
{
    let mut r: Vec<&[char]> = Vec::new();
    let mut pos: usize = 0;
    proof {
        assert(s@.skip(0) =~= s@);
        assert(slice_texts(r@) + words(s@) =~= words(s@));
    }
    while pos < s.len()
        invariant
            pos <= s@.len(),
            slice_texts(r@) + words(s@.skip(pos as int)) == words(s@),
        decreases s.len() - pos,
    {
        let ghost sk = s@.skip(pos as int);
        let ghost done = slice_texts(r@);
        if is_white_char(s[pos]) {
            assert(sk.skip(1) =~= s@.skip(pos + 1));
            pos += 1;
        } else {
            let n = word_end(s, pos);
            proof {
                lemma_word_len(sk);
                assert(sk[0] == s@[pos as int]);
            }
            let w = slice_subrange(s, pos, n);
            r.push(w);
            proof {
                let rest2 = s@.skip(n as int);
                assert(sk[0] == s@[pos as int]);
                assert(w@ =~= sk.take(n - pos));
                assert(sk.skip(n - pos) =~= rest2);
                assert(slice_texts(r@) =~= done.push(w@));
                assert(done + (seq![w@] + words(rest2)) =~= slice_texts(r@) + words(rest2));
            }
            pos = n;
        }
    }
    proof {
        assert(s@.skip(pos as int) =~= seq![]);
        assert(slice_texts(r@) + words(s@.skip(pos as int)) =~= slice_texts(r@));
    }
    r
}

/// The end of the word that starts at `pos`.
pub fn word_end(s: &[char], pos: usize) -> (n: usize)
    requires
        pos <= s@.len(),
    ensures
        pos <= n <= s@.len(),
        n - pos == word_len(s@.skip(pos as int)),
{
    let mut n: usize = pos;
    while n < s.len() && !is_white_char(s[n])
        invariant
            pos <= n <= s@.len(),
            forall|j: int| pos <= j < n ==> !is_white(#[trigger] s@[j]),
        decreases s.len() - n,
    {
        n += 1;
    }
    proof {
        let sk = s@.skip(pos as int);
        assert forall|j: int| 0 <= j < n - pos implies !is_white(#[trigger] sk[j]) by {
            assert(sk[j] == s@[j + pos]);
        }
        lemma_word_len_unique(sk, n - pos);
    }
    n
}

/// The text before the first white space and the text after it.
pub fn split_at_white(s: &[char]) -> (r: Option<(&[char], &[char])>)
    ensures
        match r {
            Some((a, b)) => split_white(s@) == Some((a@, b@)),
            None => split_white(s@) is None,
        },
{
    assert(s@.skip(0) =~= s@);
    let n: usize = word_end(s, 0);
    if n < s.len() {
        let a = slice_subrange(s, 0, n);
        let b = slice_subrange(s, n + 1, s.len());
        assert(a@ =~= s@.take(n as int));
        assert(b@ =~= s@.skip(n + 1));
        Some((a, b))
    } else {
        None
    }
}

/// The parts joined with `sep` between them.
pub fn join_strings(parts: &Vec<String>, sep: &str) -> (r: String)
    ensures
        r@ == join_texts(texts(parts@), sep@),
{
    let mut r = String::new();
    let mut i: usize = 0;
    assert(texts(parts@).take(0) =~= seq![]);
    while i < parts.len()
        invariant
            i <= parts@.len(),
            r@ == join_texts(texts(parts@).take(i as int), sep@),
        decreases parts.len() - i,
    {
        if i > 0 {
            r.push_str(sep);
        }
        r.push_str(parts[i].as_str());
        proof {
            let t = texts(parts@);
            assert(t.take(i + 1).drop_last() =~= t.take(i as int));
            assert(t.take(i + 1).last() == parts@[i as int]@);
            if i == 0 {
                assert(r@ =~= t.take(1)[0]);
            }
        }
        i += 1;
    }
    assert(texts(parts@).take(parts@.len() as int) =~= texts(parts@));
    r
}

/// The text without its last character.
pub fn without_last(s: &str) -> (r: String)
    ensures
        r@ == (if s@.len() > 0 {
            s@.drop_last()
        } else {
            s@
        }),
{
    let v = chars_of(s);
    if v.len() > 0 {
        let head = slice_subrange(v.as_slice(), 0, v.len() - 1);
        assert(head@ =~= s@.drop_last());
        string_of(head)
    } else {
        string_from(s)
    }
}

/// A copy of a list of strings.
pub fn clone_strings(v: &Vec<String>) -> (r: Vec<String>)
    ensures
        r@ == v@,
{
    let mut r: Vec<String> = Vec::new();
    let mut i: usize = 0;
    while i < v.len()
        invariant
            i <= v@.len(),
            r@ == v@.take(i as int),
        decreases v.len() - i,
    {
        r.push(v[i].clone());
        i += 1;
        assert(r@ =~= v@.take(i as int));
    }
    assert(v@.take(v@.len() as int) =~= v@);
    r
}

// ---- Laws ------------------------------------------------------------------

/// One text comes before another exactly where they agree up to some place, and
/// there the first one ends or has the smaller character.
pub proof fn text_order_is_lexicographic(a: Seq<char>, b: Seq<char>)
    ensures
        text_less(a, b) <==> exists|k: int| #[trigger] differ_at(a, b, k),
    decreases a.len(),
{
    if b.len() > 0 && a.len() > 0 && a[0] == b[0] {
        text_order_is_lexicographic(a.skip(1), b.skip(1));
        if text_less(a, b) {
            let k = choose|k: int| #[trigger] differ_at(a.skip(1), b.skip(1), k);
            assert(differ_at(a, b, k + 1)) by {
                assert forall|i: int| 0 <= i < k + 1 implies a[i] == b[i] by {
                    if i > 0 {
                        assert(a.skip(1)[i - 1] == b.skip(1)[i - 1]);
                    }
                }
            }
        }
        if exists|k: int| #[trigger] differ_at(a, b, k) {
            let k = choose|k: int| #[trigger] differ_at(a, b, k);
            assert(k > 0);
            assert(differ_at(a.skip(1), b.skip(1), k - 1)) by {
                assert forall|i: int| 0 <= i < k - 1 implies a.skip(1)[i] == b.skip(1)[i] by {
                    assert(a[i + 1] == b[i + 1]);
                }
            }
        }
    } else if b.len() > 0 {
        if text_less(a, b) {
            assert(differ_at(a, b, 0));
        }
        if exists|k: int| #[trigger] differ_at(a, b, k) {
            let k = choose|k: int| #[trigger] differ_at(a, b, k);
            if k > 0 {
                assert(a[0] == b[0]);
            }
        }
    }
}

/// The texts agree before `k`, and there `a` ends or has the smaller character.
pub open spec fn differ_at(a: Seq<char>, b: Seq<char>, k: int) -> bool {
    &&& 0 <= k <= a.len()
    &&& k < b.len()
    &&& forall|i: int| 0 <= i < k ==> #[trigger] a[i] == b[i]
    &&& k == a.len() || a[k] < b[k]
}

proof fn lemma_decimal_value(n: nat)
    ensures
        decimal(n).len() > 0,
        all_digits(decimal(n)),
        digits_value(decimal(n)) == n,
    decreases n,
{
    if n < 10 {
        reveal_with_fuel(digits_value, 2);
        assert(decimal(n).drop_last() =~= seq![]);
        assert(decimal(n).last() == digit_char(n));
    } else {
        lemma_decimal_value(n / 10);
        let d = decimal(n);
        assert(d.drop_last() =~= decimal(n / 10));
        assert(d.last() == digit_char(n % 10));
        assert forall|i: int| 0 <= i < d.len() implies is_digit(#[trigger] d[i]) by {
            if i < d.len() - 1 {
                assert(d[i] == decimal(n / 10)[i]);
            }
        }
    }
}

/// A number that was written in decimal is read back, unless it is larger than
/// what is asked for.
pub proof fn numbers_are_read_back(n: nat, max: nat)
    ensures
        parse_number(decimal(n), max) == (if n <= max {
            Some(n)
        } else {
            None
        }),
{
    lemma_decimal_value(n);
    assert(is_digit(decimal(n)[0]));
}

/// Anything but a digit in a text keeps it from being a number, except a `+`
/// that leads it.
pub proof fn only_digits_are_numbers(s: Seq<char>, max: nat, i: int)
    requires
        0 <= i < s.len(),
        !('0' <= s[i] && s[i] <= '9'),
        i > 0 || s[i] != '+',
    ensures
        parse_number(s, max) is None,
{
    if number_digits(s) != s {
        assert(number_digits(s)[i - 1] == s[i]);
    }
}

/// Trimming takes white space from both ends and nothing else: what is left
/// starts and ends with other characters.
pub proof fn trimming_takes_white_ends_only(pre: Seq<char>, body: Seq<char>, post: Seq<char>)
    requires
        forall|i: int| 0 <= i < pre.len() ==> is_white(#[trigger] pre[i]),
        forall|i: int| 0 <= i < post.len() ==> is_white(#[trigger] post[i]),
        body.len() > 0 ==> !is_white(body[0]) && !is_white(body.last()),
        body.len() == 0 ==> post.len() == 0,
    ensures
        trim(pre + body + post) == body,
        trim_start(pre + body + post) == body + post,
    decreases pre.len() + post.len(),
{
    let s = pre + body + post;
    if pre.len() > 0 {
        assert(s[0] == pre[0]);
        assert(s.skip(1) =~= pre.skip(1) + body + post);
        assert forall|i: int| 0 <= i < pre.skip(1).len() implies is_white(
            #[trigger] pre.skip(1)[i],
        ) by {
            assert(is_white(pre[i + 1]));
        }
        trimming_takes_white_ends_only(pre.skip(1), body, post);
    } else {
        assert(s =~= body + post);
        if body.len() > 0 {
            assert(s[0] == body[0]);
        }
        lemma_trim_end_of_body(body, post);
    }
}

proof fn lemma_trim_end_of_body(body: Seq<char>, post: Seq<char>)
    requires
        forall|i: int| 0 <= i < post.len() ==> is_white(#[trigger] post[i]),
        body.len() > 0 ==> !is_white(body.last()),
    ensures
        trim_end(body + post) == body,
    decreases post.len(),
{
    let s = body + post;
    if post.len() > 0 {
        assert(s.last() == post.last());
        assert(s.drop_last() =~= body + post.drop_last());
        assert forall|i: int| 0 <= i < post.drop_last().len() implies is_white(
            #[trigger] post.drop_last()[i],
        ) by {
            assert(is_white(post[i]));
        }
        lemma_trim_end_of_body(body, post.drop_last());
    } else {
        assert(s =~= body);
    }
}

/// A line ends at the first line feed, with or without a carriage return before
/// it, and the lines of the rest follow; a text without a line feed is one line.
pub proof fn lines_end_at_line_feeds(line: Seq<char>, rest: Seq<char>)
    requires
        forall|i: int| 0 <= i < line.len() ==> #[trigger] line[i] != '\n',
    ensures
        line.len() == 0 || line.last() != '\r' ==> lines(line + seq!['\n'] + rest) == seq![line]
            + lines(rest),
        lines(line + seq!['\r', '\n'] + rest) == seq![line] + lines(rest),
        line.len() > 0 ==> lines(line) == seq![line],
        lines(Seq::empty()) == Seq::<Seq<char>>::empty(),
{
    let n = line.len() as int;
    let a = line + seq!['\n'] + rest;
    lemma_first_index_unique(a, '\n', n);
    assert(a.take(n) =~= line);
    assert(a.skip(n + 1) =~= rest);
    let b = line + seq!['\r', '\n'] + rest;
    assert(b[n] == '\r');
    lemma_first_index_unique(b, '\n', n + 1);
    assert(b.take(n + 1).drop_last() =~= line);
    assert(b.take(n + 1).last() == '\r');
    assert(b.skip(n + 2) =~= rest);
    lemma_first_index(line, '\n');
    let i = first_index(line, '\n');
    if i < line.len() {
        assert(line[i] == '\n');
    }
}

/// A word that is followed by white space is the first word, and the words of
/// what follows come after it; white space at the start is no word.
pub proof fn words_end_at_white_space(word: Seq<char>, gap: Seq<char>, rest: Seq<char>)
    requires
        word.len() > 0,
        forall|i: int| 0 <= i < word.len() ==> !is_white(#[trigger] word[i]),
        gap.len() > 0,
        forall|i: int| 0 <= i < gap.len() ==> is_white(#[trigger] gap[i]),
    ensures
        words(word + gap + rest) == seq![word] + words(rest),
        words(gap + rest) == words(rest),
        words(word) == seq![word],
{
    let s = word + gap + rest;
    assert(s[0] == word[0]);
    assert(s[word.len() as int] == gap[0]);
    lemma_word_len_unique(s, word.len() as int);
    assert(s.take(word.len() as int) =~= word);
    assert(s.skip(word.len() as int) =~= gap + rest);
    lemma_words_skip_gap(gap, rest);
    lemma_word_len_unique(word, word.len() as int);
    assert(word.take(word.len() as int) =~= word);
    assert(word.skip(word.len() as int) =~= seq![]);
    assert(words(Seq::<char>::empty()) =~= seq![]);
    assert(words(word) =~= seq![word]);
}

proof fn lemma_words_skip_gap(gap: Seq<char>, rest: Seq<char>)
    requires
        forall|i: int| 0 <= i < gap.len() ==> is_white(#[trigger] gap[i]),
    ensures
        words(gap + rest) == words(rest),
    decreases gap.len(),
{
    let s = gap + rest;
    if gap.len() > 0 {
        assert(s[0] == gap[0]);
        assert(s.skip(1) =~= gap.skip(1) + rest);
        assert forall|i: int| 0 <= i < gap.skip(1).len() implies is_white(
            #[trigger] gap.skip(1)[i],
        ) by {
            assert(is_white(gap[i + 1]));
        }
        lemma_words_skip_gap(gap.skip(1), rest);
    } else {
        assert(s =~= rest);
    }
}

/// A field ends at the first separator, and the fields of the rest follow; the
/// last of the fields that are asked for takes all that is left, and a text
/// without a separator is one field.
pub proof fn fields_end_at_separators(field: Seq<char>, rest: Seq<char>, n: nat, c: char)
    requires
        !field.contains(c),
        n > 1,
    ensures
        splitn(field + seq![c] + rest, n, c) == seq![field] + splitn(rest, (n - 1) as nat, c),
        splitn(field, n, c) == seq![field],
        splitn(rest, 1, c) == seq![rest],
{
    let s = field + seq![c] + rest;
    assert forall|i: int| 0 <= i < field.len() implies field[i] != c by {
        assert(field.contains(field[i]));
    }
    lemma_first_index_unique(s, c, field.len() as int);
    assert(s.take(field.len() as int) =~= field);
    assert(s.skip(field.len() as int + 1) =~= rest);
    lemma_first_index(field, c);
    reveal_with_fuel(splitn, 2);
}

/// A number is written in digits.
pub proof fn decimals_are_digits(n: nat)
    ensures
        decimal(n).len() > 0,
        forall|i: int| 0 <= i < decimal(n).len() ==> is_digit(#[trigger] decimal(n)[i]),
    decreases n,
{
    if n >= 10 {
        decimals_are_digits(n / 10);
        let d = decimal(n);
        let h = decimal(n / 10);
        assert forall|i: int| 0 <= i < d.len() implies is_digit(#[trigger] d[i]) by {
            if i < h.len() {
                assert(d[i] == h[i]);
            }
        }
    }
}

/// The first word of a text is what stands before its first blank.
pub proof fn first_words_are_split_off(word: Seq<char>, rest: Seq<char>)
    requires
        word.len() > 0,
        forall|i: int| 0 <= i < word.len() ==> !is_white(#[trigger] word[i]),
    ensures
        split_white(trim_start(word + seq![' '] + rest)) == Some((word, rest)),
        split_white(word) is None,
{
    let s = word + seq![' '] + rest;
    assert(is_white(' '));
    assert(s[0] == word[0]);
    assert(trim_start(s) == s);
    lemma_word_len_unique(s, word.len() as int);
    lemma_word_len_unique(word, word.len() as int);
    assert(s.take(word.len() as int) =~= word);
    assert(s.skip(word.len() as int + 1) =~= rest);
}

/// Lower case moves the ASCII capitals by thirty-two and keeps every other
/// character; the text keeps its length.
pub proof fn lower_case_moves_capitals_only(s: Seq<char>)
    ensures
        ascii_lower(s).len() == s.len(),
        forall|i: int|
            0 <= i < s.len() ==> (if 'A' <= s[i] <= 'Z' {
                (#[trigger] ascii_lower(s)[i]) as int == s[i] as int + 32
            } else {
                ascii_lower(s)[i] == s[i]
            }),
{
}

/// A text that does not start with white space starts with the same character
/// when it is trimmed.
pub proof fn trimming_keeps_the_first_character(s: Seq<char>)
    requires
        s.len() > 0,
        !is_white(s[0]),
    ensures
        trim(s).len() > 0,
        trim(s)[0] == s[0],
    decreases s.len(),
{
    assert(trim_start(s) == s);
    lemma_trim_end_keeps_first(s);
}

proof fn lemma_trim_end_keeps_first(s: Seq<char>)
    requires
        s.len() > 0,
        !is_white(s[0]),
    ensures
        trim_end(s).len() > 0,
        trim_end(s)[0] == s[0],
    decreases s.len(),
{
    if is_white(s.last()) {
        lemma_trim_end_keeps_first(s.drop_last());
    }
}

/// Joined parts stand one behind the other with the separator between them.
pub proof fn joined_parts_are_separated(first: Seq<char>, rest: Seq<Seq<char>>, sep: Seq<char>)
    ensures
        join_texts(seq![first] + rest, sep) == first + (if rest.len() > 0 {
            sep + join_texts(rest, sep)
        } else {
            seq![]
        }),
        join_texts(seq![], sep) == Seq::<char>::empty(),
    decreases rest.len(),
{
    let all = seq![first] + rest;
    reveal_with_fuel(join_texts, 2);
    if rest.len() > 0 {
        let d = rest.drop_last();
        assert(all.drop_last() =~= seq![first] + d);
        assert(all.skip(1) =~= rest);
        joined_parts_are_separated(first, d, sep);
        assert(join_texts(all, sep) =~= first + sep + join_texts(rest, sep));
        assert(first + sep + join_texts(rest, sep) =~= first + (sep + join_texts(rest, sep)));
    } else {
        assert(all =~= seq![first]);
        assert(first + Seq::<char>::empty() =~= first);
    }
}

} // verus!
