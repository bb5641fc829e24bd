//! Hosts named in an ssh client configuration.

use vstd::prelude::*;
use crate::filtering::{items_of, keep_flagged, query_matches, Query};
use crate::sorting::{keeps_order_of, sort_items, sorted_lists_are_in_order, sorted_stably, text_key};
use crate::sorting::SortKey;
use crate::text::{ascii_lower, ascii_lower_chars, chars_of, contains_text, find_first};
use crate::text::{first_words_are_split_off, is_white, lemma_text_less_total, trim_start};
use crate::text::trimming_takes_white_ends_only;
use crate::text::{lemma_first_index, lines, lowercase, same_chars, slice_texts, split_at_white};
use crate::text::{split_lines, split_white, split_words, string_of, text_less, trim, trim_chars};
use crate::text::words;

verus! {

/// One `Host` entry.
#[derive(Debug, PartialEq, Eq)]
pub struct SshServer {
    pub alias: String,
    pub hostname: Option<String>,
    pub user: Option<String>,
    pub identity_file: Option<String>,
}

/// A host as plain values.
pub struct ServerView {
    pub alias: Seq<char>,
    pub hostname: Option<Seq<char>>,
    pub user: Option<Seq<char>>,
    pub identity_file: Option<Seq<char>>,
}

pub open spec fn opt_view(s: Option<String>) -> Option<Seq<char>> {
    match s {
        Some(t) => Some(t@),
        None => None,
    }
}

impl View for SshServer {
    type V = ServerView;

    open spec fn view(&self) -> ServerView {
        ServerView {
            alias: self.alias@,
            hostname: opt_view(self.hostname),
            user: opt_view(self.user),
            identity_file: opt_view(self.identity_file),
        }
    }
}

/// What the servers dialog shows.
#[derive(Debug)]
pub enum SshServersState {
    Loading,
    Loaded(Vec<SshServer>),
    Error(String),
}

/// A host pattern that names one host.
pub open spec fn is_plain_host(p: Seq<char>) -> bool {
    !p.contains('*') && !p.contains('?')
}

/// The first pattern that names one host.
pub open spec fn first_plain_host(patterns: Seq<Seq<char>>) -> Option<Seq<char>>
    decreases patterns.len(),
{
    if patterns.len() == 0 {
        None
    } else if is_plain_host(patterns[0]) {
        Some(patterns[0])
    } else {
        first_plain_host(patterns.skip(1))
    }
}

/// The hosts read so far, and the one whose block is open.
pub struct ConfigState {
    pub servers: Seq<ServerView>,
    pub current: Option<ServerView>,
}

/// The hosts once the open block ends.
pub open spec fn closed_hosts(st: ConfigState) -> Seq<ServerView> {
    match st.current {
        Some(s) => st.servers.push(s),
        None => st.servers,
    }
}

/// A host of which only the alias is known.
pub open spec fn bare_host(alias: Seq<char>) -> ServerView {
    ServerView { alias, hostname: None, user: None, identity_file: None }
}

/// A host with one setting changed.
pub open spec fn with_setting(s: ServerView, key: Seq<char>, value: Seq<char>) -> ServerView {
    if key == "hostname"@ {
        ServerView { hostname: Some(value), ..s }
    } else if key == "user"@ {
        ServerView { user: Some(value), ..s }
    } else if key == "identityfile"@ {
        ServerView { identity_file: Some(value), ..s }
    } else {
        s
    }
}

/// What a line does: a `Host` line ends the open block and opens one for its
/// first pattern without wildcards; another setting belongs to the open block.
/// Keys ignore case; blank lines, comments and keys without a value do nothing.
pub open spec fn config_step(st: ConfigState, raw: Seq<char>) -> ConfigState {
    let line = trim(raw);
    if line.len() == 0 || line[0] == '#' {
        st
    } else {
        match split_white(line) {
            None => st,
            Some((k, v)) => {
                let key = ascii_lower(k);
                let value = trim(v);
                if key == "host"@ {
                    ConfigState {
                        servers: closed_hosts(st),
                        current: match first_plain_host(words(value)) {
                            Some(alias) => Some(bare_host(alias)),
                            None => None,
                        },
                    }
                } else {
                    match st.current {
                        Some(s) => ConfigState { current: Some(with_setting(s, key, value)), ..st },
                        None => st,
                    }
                }
            },
        }
    }
}

/// What the lines do, one after the other.
pub open spec fn config_fold(ls: Seq<Seq<char>>) -> ConfigState
    decreases ls.len(),
{
    if ls.len() == 0 {
        ConfigState { servers: seq![], current: None }
    } else {
        config_step(config_fold(ls.drop_last()), ls.last())
    }
}

/// The hosts of a sequence as plain values.
pub open spec fn server_views(v: Seq<SshServer>) -> Seq<ServerView> {
    Seq::new(v.len(), |i: int| v[i]@)
}

fn has_char(s: &[char], c: char) -> (r: bool)
    ensures
        r == s@.contains(c),
{
    let i: usize = find_first(s, c);
    proof {
        lemma_first_index(s@, c);
    }
    if i < s.len() {
        assert(s@[i as int] == c);
        true
    } else {
        false
    }
}

fn find_plain_host<'a>(patterns: &Vec<&'a [char]>) -> (r: Option<&'a [char]>)
    ensures
        match r {
            Some(p) => first_plain_host(slice_texts(patterns@)) == Some(p@),
            None => first_plain_host(slice_texts(patterns@)) is None,
        },
{
    let ghost all = slice_texts(patterns@);
    let mut i: usize = 0;
    assert(all.skip(0) =~= all);
    while i < patterns.len()
        invariant
            i <= patterns@.len(),
            all == slice_texts(patterns@),
            first_plain_host(all) == first_plain_host(all.skip(i as int)),
        decreases patterns.len() - i,
    {
        let p = patterns[i];
        assert(all.skip(i as int)[0] == p@);
        if !has_char(p, '*') && !has_char(p, '?') {
            return Some(p);
        }
        assert(all.skip(i as int).skip(1) =~= all.skip(i + 1));
        i += 1;
    }
    None
}

/// Reads the `Host` blocks of an ssh configuration. Blocks that hold only
/// wildcard patterns are passed over.
pub fn parse_ssh_config(content: &str) -> (r: Vec<SshServer>)
    ensures
        server_views(r@) == closed_hosts(config_fold(lines(content@))),
{
    let v = chars_of(content);
    let ls = split_lines(v.as_slice());
    let ghost all = lines(content@);
    let mut servers: Vec<SshServer> = Vec::new();
    let mut current: Option<SshServer> = None;
    let host: Vec<char> = chars_of("host");
    let hostname: Vec<char> = chars_of("hostname");
    let user: Vec<char> = chars_of("user");
    let identity: Vec<char> = chars_of("identityfile");
    let mut i: usize = 0;
    assert(slice_texts(ls@).len() == ls@.len());
    assert(server_views(servers@) =~= seq![]);
    assert(all.take(0) =~= seq![]);
    while i < ls.len()
        invariant
            i <= ls@.len(),
            ls@.len() == all.len(),
            slice_texts(ls@) == all,
            host@ == "host"@,
            hostname@ == "hostname"@,
            user@ == "user"@,
            identity@ == "identityfile"@,
            config_fold(all.take(i as int)).servers == server_views(servers@),
            match current {
                Some(s) => config_fold(all.take(i as int)).current == Some(s@),
                None => config_fold(all.take(i as int)).current is None,
            },
        decreases ls.len() - i,
    {
        let line = trim_chars(ls[i]);
        proof {
            assert(all.take(i + 1).drop_last() =~= all.take(i as int));
            assert(slice_texts(ls@)[i as int] == ls@[i as int]@);
        }
        i += 1;
        if line.len() == 0 || line[0] == '#' {
            continue;
        }
        let (k, val) = match split_at_white(line) {
            Some(p) => p,
            None => {
                continue;
            },
        };
        let key = ascii_lower_chars(k);
        let value = trim_chars(val);
        let ghost done = server_views(servers@);
        if same_chars(key.as_slice(), host.as_slice()) {
            match current {
                Some(srv) => {
                    let ghost sv = srv@;
                    servers.push(srv);
                    assert(server_views(servers@) =~= done.push(sv));
                },
                None => {},
            }
            let patterns = split_words(value);
            current = match find_plain_host(&patterns) {
                Some(alias) => Some(
                    SshServer {
                        alias: string_of(alias),
                        hostname: None,
                        user: None,
                        identity_file: None,
                    },
                ),
                None => None,
            };
        } else {
            current = match current {
                Some(srv) => {
                    let text = string_of(value);
                    if same_chars(key.as_slice(), hostname.as_slice()) {
                        Some(SshServer { hostname: Some(text), ..srv })
                    } else if same_chars(key.as_slice(), user.as_slice()) {
                        Some(SshServer { user: Some(text), ..srv })
                    } else if same_chars(key.as_slice(), identity.as_slice()) {
                        Some(SshServer { identity_file: Some(text), ..srv })
                    } else {
                        Some(srv)
                    }
                },
                None => None,
            };
        }
    }
    assert(all.take(all.len() as int) =~= all);
    match current {
        Some(srv) => {
            let ghost done = server_views(servers@);
            let ghost sv = srv@;
            servers.push(srv);
            assert(server_views(servers@) =~= done.push(sv));
        },
        None => {},
    }
    servers
}

/// Whether one host must be listed before another.
pub open spec fn server_less(a: SshServer, b: SshServer) -> bool {
    text_less(lowercase(a.alias@), lowercase(b.alias@))
}

/// Sorts hosts by alias, ignoring case; equal ones keep their order.
pub fn sort_servers(servers: &mut Vec<SshServer>)
    ensures
        sorted_stably(
            old(servers)@,
            final(servers)@,
            |a: SshServer, b: SshServer| server_less(a, b),
        ),
{
    let ghost before = servers@;
    let mut keys: Vec<SortKey> = Vec::new();
    let mut i: usize = 0;
    while i < servers.len()
        invariant
            servers@ == before,
            i <= before.len(),
            keys@.len() == i,
            forall|k: int|
                0 <= k < i ==> (#[trigger] keys@[k])@.text == lowercase(before[k].alias@)
                    && keys@[k]@.number == 0 && !keys@[k]@.group,
        decreases servers.len() - i,
    {
        let lower = servers[i].alias.as_str().to_lowercase();
        keys.push(text_key(chars_of(lower.as_str())));
        i += 1;
    }
    sort_items(servers, &keys, false, Ghost(|a: SshServer, b: SshServer| server_less(a, b)));
}

/// A query matches a host by its alias or its host name.
pub open spec fn server_matches(s: SshServer, query: Seq<char>) -> bool {
    query_matches(s.alias@, query) || (s.hostname matches Some(h) && query_matches(h@, query))
}

/// The hosts that a query matches.
pub fn filtered_servers<'a>(servers: &'a [SshServer], input: &str) -> (r: Vec<&'a SshServer>)
    ensures
        items_of(r@) == servers@.filter(|s: SshServer| server_matches(s, input@)),
{
    let q = Query::new(input);
    let mut flags: Vec<bool> = Vec::new();
    let mut i: usize = 0;
    while i < servers.len()
        invariant
            q.wf(),
            q.text() == input@,
            i <= servers@.len(),
            flags@.len() == i,
            forall|k: int|
                0 <= k < i ==> #[trigger] flags@[k] == server_matches(servers@[k], input@),
        decreases servers.len() - i,
    {
        let by_host: bool = match &servers[i].hostname {
            Some(h) => q.matches_text(h.as_str()),
            None => false,
        };
        flags.push(q.matches_text(servers[i].alias.as_str()) || by_host);
        i += 1;
    }
    keep_flagged(servers, &flags, Ghost(|s: SshServer| server_matches(s, input@)))
}

/// Sorted hosts stand in the order of their aliases in lower case; those of the
/// same alias keep their order, and none is lost.
pub proof fn hosts_are_in_order(old_list: Seq<SshServer>, new_list: Seq<SshServer>)
    requires
        sorted_stably(old_list, new_list, |a: SshServer, b: SshServer| server_less(a, b)),
    ensures
        forall|i: int, j: int|
            0 <= i < j < new_list.len() ==> !text_less(
                lowercase((#[trigger] new_list[j]).alias@),
                lowercase((#[trigger] new_list[i]).alias@),
            ),
        old_list.to_multiset() == new_list.to_multiset(),
        keeps_order_of(
            old_list,
            new_list,
            |a: SshServer, b: SshServer| lowercase(a.alias@) == lowercase(b.alias@),
        ),
{
    let less = |a: SshServer, b: SshServer| server_less(a, b);
    let same = |a: SshServer, b: SshServer| lowercase(a.alias@) == lowercase(b.alias@);
    assert forall|a: SshServer, b: SshServer| #[trigger] less(a, b) implies !less(b, a) && !same(
        a,
        b,
    ) by {
        lemma_text_less_total(lowercase(a.alias@), lowercase(b.alias@));
    }
    sorted_lists_are_in_order(old_list, new_list, less, same);
    assert forall|i: int, j: int| 0 <= i < j < new_list.len() implies !text_less(
        lowercase((#[trigger] new_list[j]).alias@),
        lowercase((#[trigger] new_list[i]).alias@),
    ) by {
        assert(!less(new_list[j], new_list[i]));
    }
}

/// A query finds a host by what stands anywhere in its alias or its host name.
pub proof fn hosts_are_found_by_alias_or_name(s: SshServer, query: Seq<char>)
    ensures
        server_matches(s, query) <==> query.len() == 0 || contains_text(
            lowercase(s.alias@),
            lowercase(query),
        ) || (s.hostname matches Some(h) && contains_text(lowercase(h@), lowercase(query))),
{
}

proof fn lemma_setting_line(indent: Seq<char>, key: Seq<char>, value: Seq<char>)
    requires
        forall|i: int| 0 <= i < indent.len() ==> is_white(#[trigger] indent[i]),
        key.len() > 0,
        forall|i: int| 0 <= i < key.len() ==> !is_white(#[trigger] key[i]),
        value.len() > 0,
        !is_white(value[0]),
        !is_white(value.last()),
    ensures
        trim(indent + key + seq![' '] + value) == key + seq![' '] + value,
        split_white(key + seq![' '] + value) == Some((key, value)),
        trim(value) == value,
{
    let body = key + seq![' '] + value;
    assert(indent + key + seq![' '] + value =~= indent + body + Seq::<char>::empty());
    assert(body[0] == key[0]);
    assert(body.last() == value.last());
    trimming_takes_white_ends_only(indent, body, seq![]);
    first_words_are_split_off(key, value);
    assert(trim_start(body) == body);
    assert(value =~= Seq::<char>::empty() + value + Seq::<char>::empty());
    trimming_takes_white_ends_only(seq![], value, seq![]);
}

/// A `Host` line ends the block before it and opens one: for its first pattern
/// without a wildcard, of which nothing is known yet but the alias, and for none
/// where every pattern has a wildcard. The key may be written in any case.
pub proof fn host_lines_open_blocks(
    st: ConfigState,
    indent: Seq<char>,
    key: Seq<char>,
    value: Seq<char>,
    wild: Seq<Seq<char>>,
    alias: Seq<char>,
    rest: Seq<Seq<char>>,
)
    requires
        forall|i: int| 0 <= i < indent.len() ==> is_white(#[trigger] indent[i]),
        key.len() > 0,
        forall|i: int| 0 <= i < key.len() ==> !is_white(#[trigger] key[i]),
        ascii_lower(key) == "host"@,
        value.len() > 0,
        !is_white(value[0]),
        !is_white(value.last()),
        forall|i: int|
            0 <= i < wild.len() ==> (#[trigger] wild[i]).contains('*') || wild[i].contains('?'),
    ensures
        words(value) == wild + seq![alias] + rest && !alias.contains('*') && !alias.contains('?')
            ==> config_step(st, indent + key + seq![' '] + value) == (ConfigState {
            servers: match st.current {
                Some(s) => st.servers.push(s),
                None => st.servers,
            },
            current: Some(
                ServerView { alias, hostname: None, user: None, identity_file: None },
            ),
        }),
        words(value) == wild ==> config_step(st, indent + key + seq![' '] + value) == (ConfigState {
            servers: match st.current {
                Some(s) => st.servers.push(s),
                None => st.servers,
            },
            current: None,
        }),
{
    lemma_setting_line(indent, key, value);
    lemma_first_plain(wild, alias, rest);
    reveal_strlit("host");
    assert(ascii_lower(key)[0] == 'h');
    assert((key + seq![' '] + value)[0] == key[0]);
}

proof fn lemma_first_plain(wild: Seq<Seq<char>>, alias: Seq<char>, rest: Seq<Seq<char>>)
    requires
        forall|i: int|
            0 <= i < wild.len() ==> (#[trigger] wild[i]).contains('*') || wild[i].contains('?'),
    ensures
        first_plain_host(wild) is None,
        !alias.contains('*') && !alias.contains('?') ==> first_plain_host(
            wild + seq![alias] + rest,
        ) == Some(alias),
    decreases wild.len(),
{
    let all = wild + seq![alias] + rest;
    if wild.len() > 0 {
        assert forall|i: int| 0 <= i < wild.skip(1).len() implies (#[trigger] wild.skip(
            1,
        )[i]).contains('*') || wild.skip(1)[i].contains('?') by {
            assert(wild.skip(1)[i] == wild[i + 1]);
        }
        lemma_first_plain(wild.skip(1), alias, rest);
        assert(all[0] == wild[0]);
        assert(all.skip(1) =~= wild.skip(1) + seq![alias] + rest);
    } else {
        assert(all[0] == alias);
    }
}

/// Any other line with a key and a value sets what the key names in the open
/// block, the host name, the user or the key file, and leaves the rest of it; it
/// does nothing where no block is open or the key names none of these.
pub proof fn settings_belong_to_the_open_block(
    st: ConfigState,
    indent: Seq<char>,
    key: Seq<char>,
    value: Seq<char>,
)
    requires
        forall|i: int| 0 <= i < indent.len() ==> is_white(#[trigger] indent[i]),
        key.len() > 0,
        forall|i: int| 0 <= i < key.len() ==> !is_white(#[trigger] key[i]),
        key[0] != '#',
        ascii_lower(key) != "host"@,
        value.len() > 0,
        !is_white(value[0]),
        !is_white(value.last()),
    ensures
        ({
            let after = config_step(st, indent + key + seq![' '] + value);
            &&& after.servers == st.servers
            &&& st.current is None ==> after.current is None
            &&& st.current matches Some(s) ==> {
                &&& after.current matches Some(t)
                &&& t.alias == s.alias
                &&& t.hostname == (if ascii_lower(key) == "hostname"@ {
                    Some(value)
                } else {
                    s.hostname
                })
                &&& t.user == (if ascii_lower(key) == "user"@ {
                    Some(value)
                } else {
                    s.user
                })
                &&& t.identity_file == (if ascii_lower(key) == "identityfile"@ {
                    Some(value)
                } else {
                    s.identity_file
                })
            }
        }),
{
    lemma_setting_line(indent, key, value);
    assert((key + seq![' '] + value)[0] == key[0]);
    reveal_strlit("hostname");
    reveal_strlit("user");
    reveal_strlit("identityfile");
    assert("hostname"@.len() == 8 && "user"@.len() == 4 && "identityfile"@.len() == 12);
}

/// The lines are taken one after the other, and the last block counts too.
/// Comments say nothing.
pub proof fn blocks_are_read_in_order(ls: Seq<Seq<char>>, line: Seq<char>)
    ensures
        config_fold(ls.push(line)) == config_step(config_fold(ls), line),
        config_fold(seq![]) == (ConfigState { servers: seq![], current: None }),
        line.len() > 0 && line[0] == '#' ==> config_step(config_fold(ls), line) == config_fold(ls),
        config_step(config_fold(ls), seq![]) == config_fold(ls),
        ({
            let st = config_fold(ls);
            closed_hosts(st) == (match st.current {
                Some(s) => st.servers.push(s),
                None => st.servers,
            })
        }),
{
    assert(ls.push(line).drop_last() =~= ls);
    if line.len() > 0 && line[0] == '#' {
        crate::text::trimming_keeps_the_first_character(line);
    }
}

} // verus!
