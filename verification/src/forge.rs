//! Forge remote detection (GitHub / Forgejo): which forge a git remote
//! URL belongs to and its web identity, and the pieces of fj's
//! `keys.json` and of the Forgejo REST replies the IDE reads.
//!
//! `codeberg.org` is always a Forgejo host; any other host counts as
//! Forgejo only when fj has a login for it.
use vstd::prelude::*;
use crate::json::{get_str, or_empty, spec_as_str, spec_as_u64, spec_get, string_or_empty, Json};
use crate::text::{
    before_char, before_char_len, chars_of, char_index, find_char, has_prefix, lines, lines_of,
    push_chars, push_str_chars, starts_with, str_eq, string_from_chars, string_from_range, trim,
    trim_bounds, trim_end_char, trim_end_char_len, trim_end_str, trim_end_str_len, trim_start,
};

verus! {

/// Which forge a recognised remote belongs to.
#[derive(Clone, Copy, Debug, PartialEq, Eq, Structural)]
pub enum ForgeKind {
    GitHub,
    Forgejo,
}

/// A recognised remote, normalised to its web identity.
#[derive(Clone, Debug)]
pub struct ForgeRemote {
    pub kind: ForgeKind,
    /// Host, plus `:port` when an HTTPS remote carried one.
    pub host: String,
    /// `owner/repo`, with trailing `/` and `.git` trimmed.
    pub owner_repo: String,
    /// `https://<host>/<owner_repo>`.
    pub web_base: String,
}

/// The abstract content of a [`ForgeRemote`].
pub ghost struct RemoteSpec {
    pub kind: ForgeKind,
    pub host: Seq<char>,
    pub owner_repo: Seq<char>,
    pub web_base: Seq<char>,
}

impl View for ForgeRemote {
    type V = RemoteSpec;

    open spec fn view(&self) -> RemoteSpec {
        RemoteSpec {
            kind: self.kind,
            host: self.host@,
            owner_repo: self.owner_repo@,
            web_base: self.web_base@,
        }
    }
}

/// What [`classify`] makes of `(host, path)` given the known Forgejo hosts.
pub open spec fn classify_spec(host: Seq<char>, path: Seq<char>, forgejo_hosts: Seq<Seq<char>>) -> Option<RemoteSpec> {
    let bare = before_char(host, ':');
    if host.len() == 0 || path.len() == 0 {
        None
    } else if bare != "github.com"@ && bare != "codeberg.org"@ && !forgejo_hosts.contains(bare) {
        None
    } else {
        let kind = if bare == "github.com"@ { ForgeKind::GitHub } else { ForgeKind::Forgejo };
        let owner_repo = trim_end_str(trim_end_char(path, '/'), ".git"@);
        Some(RemoteSpec { kind, host, owner_repo, web_base: "https://"@ + host + "/"@ + owner_repo })
    }
}

/// Whether `name` is one of `hosts`.
fn contains_str(hosts: &[String], name: &[char]) -> (r: bool)
    ensures
        r == hosts.deep_view().contains(name@),
{
    let mut i: usize = 0;
    while i < hosts.len()
        invariant
            i <= hosts.len(),
            forall|j: int| 0 <= j < i ==> hosts.deep_view()[j] != name@,
        decreases hosts.len() - i,
    {
        let h = chars_of(hosts[i].as_str());
        if crate::text::chars_eq(h.as_slice(), name) {
            assert(hosts.deep_view()[i as int] == name@);
            return true;
        }
        i = i + 1;
    }
    assert(!hosts.deep_view().contains(name@)) by {
        if hosts.deep_view().contains(name@) {
            let j = choose|j: int| 0 <= j < hosts.deep_view().len() && hosts.deep_view()[j] == name@;
            assert(j < i);
        }
    }
    false
}

/// Map a parsed `(host, path)` pair to a remote, or `None` for hosts we
/// don't recognise. The port is ignored for the match but kept in the
/// web identity.
pub fn classify(host: &[char], path: &[char], forgejo_hosts: &[String]) -> (r: Option<ForgeRemote>)
    ensures
        match r {
            Some(f) => classify_spec(host@, path@, forgejo_hosts.deep_view()) == Some(f@),
            None => classify_spec(host@, path@, forgejo_hosts.deep_view()) is None,
        },
{
    if host.len() == 0 || path.len() == 0 {
        return None;
    }
    let k = before_char_len(host, ':');
    let bare = &host[0..k];
    assert(bare@ == host@.take(k as int));
    let github = chars_of("github.com");
    let codeberg = chars_of("codeberg.org");
    let is_github = crate::text::chars_eq(bare, github.as_slice());
    let kind = if is_github {
        ForgeKind::GitHub
    } else if crate::text::chars_eq(bare, codeberg.as_slice()) || contains_str(forgejo_hosts, bare) {
        ForgeKind::Forgejo
    } else {
        return None;
    };
    let p1 = trim_end_char_len(path, '/');
    let dotgit = chars_of(".git");
    let p2 = trim_end_str_len(&path[0..p1], dotgit.as_slice());
    assert(path@.subrange(0, p1 as int) =~= path@.take(p1 as int));
    let owner_repo_chars = &path[0..p2];
    assert(path@.subrange(0, p1 as int).take(p2 as int) =~= owner_repo_chars@);
    let mut web: Vec<char> = chars_of("https://");
    push_chars(&mut web, host);
    push_str_chars(&mut web, "/");
    push_chars(&mut web, owner_repo_chars);
    Some(ForgeRemote {
        kind,
        host: string_from_chars(host),
        owner_repo: string_from_chars(owner_repo_chars),
        web_base: string_from_chars(web.as_slice()),
    })
}

/// `s` without its prefix `p`, when it has that prefix.
pub open spec fn strip_prefix(s: Seq<char>, p: Seq<char>) -> Option<Seq<char>> {
    if has_prefix(s, p) {
        Some(s.skip(p.len() as int))
    } else {
        None
    }
}

/// What [`normalize_remote_url_with`] makes of `raw`.
pub open spec fn normalize_remote_spec(raw: Seq<char>, hosts: Seq<Seq<char>>) -> Option<RemoteSpec> {
    if has_prefix(raw, "git@"@) {
        let rest = raw.skip(4);
        match char_index(rest, ':') {
            Some(i) => classify_spec(rest.take(i), rest.skip(i + 1), hosts),
            None => None,
        }
    } else if has_prefix(raw, "ssh://"@) {
        let r0 = raw.skip(6);
        let rest = if has_prefix(r0, "git@"@) { r0.skip(4) } else { r0 };
        match char_index(rest, '/') {
            Some(i) => classify_spec(before_char(rest.take(i), ':'), rest.skip(i + 1), hosts),
            None => None,
        }
    } else if has_prefix(raw, "https://"@) || has_prefix(raw, "http://"@) {
        let rest = if has_prefix(raw, "https://"@) { raw.skip(8) } else { raw.skip(7) };
        match char_index(rest, '/') {
            Some(i) => classify_spec(rest.take(i), rest.skip(i + 1), hosts),
            None => None,
        }
    } else {
        None
    }
}

/// Knowing more Forgejo hosts never drops or alters a recognised remote:
/// what the hosts `known` recognise, any larger list `more` recognises
/// the same way.
pub proof fn law_more_hosts_keep_remotes(raw: Seq<char>, known: Seq<Seq<char>>, more: Seq<Seq<char>>)
    requires
        forall|h: Seq<char>| known.contains(h) ==> more.contains(h),
    ensures
        normalize_remote_spec(raw, known) is Some ==> normalize_remote_spec(raw, more) == normalize_remote_spec(
            raw,
            known,
        ),
{
}

/// A plain-HTTP remote is recognised exactly like its HTTPS twin: for
/// every rest `r` of the URL, `http://` + `r` and `https://` + `r` give the
/// same forge, host, repository and web address (the web address is
/// always HTTPS), or are both unrecognised.
pub proof fn law_http_like_https(r: Seq<char>, hosts: Seq<Seq<char>>)
    ensures
        normalize_remote_spec("http://"@ + r, hosts) == normalize_remote_spec("https://"@ + r, hosts),
{
    reveal_strlit("http://");
    reveal_strlit("https://");
    reveal_strlit("git@");
    reveal_strlit("ssh://");
    let a = "http://"@ + r;
    let b = "https://"@ + r;
    assert(a[0] == 'h' && a[1] == 't' && a[4] == ':');
    assert(b[0] == 'h' && b[4] == 's');
    assert(!has_prefix(a, "git@"@)) by {
        if has_prefix(a, "git@"@) {
            assert(a.take(4)[0] == "git@"@[0]);
        }
    }
    assert(!has_prefix(b, "git@"@)) by {
        if has_prefix(b, "git@"@) {
            assert(b.take(4)[0] == "git@"@[0]);
        }
    }
    assert(!has_prefix(a, "ssh://"@)) by {
        if has_prefix(a, "ssh://"@) {
            assert(a.take(6)[0] == "ssh://"@[0]);
        }
    }
    assert(!has_prefix(b, "ssh://"@)) by {
        if has_prefix(b, "ssh://"@) {
            assert(b.take(6)[0] == "ssh://"@[0]);
        }
    }
    assert(!has_prefix(a, "https://"@)) by {
        if has_prefix(a, "https://"@) {
            assert(a.take(8)[4] == "https://"@[4]);
        }
    }
    assert(a.take(7) =~= "http://"@);
    assert(has_prefix(a, "http://"@));
    assert(b.take(8) =~= "https://"@);
    assert(has_prefix(b, "https://"@));
    assert(a.skip(7) =~= r);
    assert(b.skip(8) =~= r);
}

/// Normalise a remote URL (SCP-style SSH, `ssh://`, `https://` or
/// `http://`) to a recognised forge; `None` for anything else. The SSH
/// port is not the web port and is dropped.
pub fn normalize_remote_url_with(raw: &str, forgejo_hosts: &[String]) -> (r: Option<ForgeRemote>)
    ensures
        match r {
            Some(f) => normalize_remote_spec(raw@, forgejo_hosts.deep_view()) == Some(f@),
            None => normalize_remote_spec(raw@, forgejo_hosts.deep_view()) is None,
        },
{
    let cs = chars_of(raw);
    let git_at = chars_of("git@");
    let ssh = chars_of("ssh://");
    let https = chars_of("https://");
    let http = chars_of("http://");
    assert(git_at@.len() == 4 && ssh@.len() == 6 && https@.len() == 8 && http@.len() == 7) by {
        reveal_strlit("git@");
        reveal_strlit("ssh://");
        reveal_strlit("https://");
        reveal_strlit("http://");
    }
    if starts_with(cs.as_slice(), git_at.as_slice()) {
        let rest = &cs.as_slice()[4..cs.len()];
        assert(rest@ =~= cs@.skip(4));
        match find_char(rest, ':') {
            Some(i) => {
                assert(rest@.subrange(0, i as int) =~= rest@.take(i as int));
                assert(rest@.subrange(i + 1, rest@.len() as int) =~= rest@.skip(i + 1));
                return classify(&rest[0..i], &rest[i + 1..rest.len()], forgejo_hosts);
            },
            None => {
                return None;
            },
        }
    }
    if starts_with(cs.as_slice(), ssh.as_slice()) {
        let r0 = &cs.as_slice()[6..cs.len()];
        assert(r0@ =~= cs@.skip(6));
        let rest = if starts_with(r0, git_at.as_slice()) {
            assert(r0@.subrange(4, r0@.len() as int) =~= r0@.skip(4));
            &r0[4..r0.len()]
        } else {
            r0
        };
        match find_char(rest, '/') {
            Some(i) => {
                let authority = &rest[0..i];
                assert(authority@ =~= rest@.take(i as int));
                let k = before_char_len(authority, ':');
                assert(authority@.subrange(0, k as int) =~= authority@.take(k as int));
                assert(rest@.subrange(i + 1, rest@.len() as int) =~= rest@.skip(i + 1));
                return classify(&authority[0..k], &rest[i + 1..rest.len()], forgejo_hosts);
            },
            None => {
                return None;
            },
        }
    }
    let is_https = starts_with(cs.as_slice(), https.as_slice());
    if is_https || starts_with(cs.as_slice(), http.as_slice()) {
        let skip: usize = if is_https { 8 } else { 7 };
        let rest = &cs.as_slice()[skip..cs.len()];
        assert(rest@ =~= cs@.skip(skip as int));
        match find_char(rest, '/') {
            Some(i) => {
                assert(rest@.subrange(0, i as int) =~= rest@.take(i as int));
                assert(rest@.subrange(i + 1, rest@.len() as int) =~= rest@.skip(i + 1));
                return classify(&rest[0..i], &rest[i + 1..rest.len()], forgejo_hosts);
            },
            None => {
                return None;
            },
        }
    }
    None
}

impl ForgeRemote {
    /// Forgejo REST base of the remote: `https://<host>/api/v1`.
    pub fn api_base(&self) -> (r: String)
        ensures
            r@ == "https://"@ + self.host@ + "/api/v1"@,
    {
        let mut v: Vec<char> = chars_of("https://");
        push_str_chars(&mut v, self.host.as_str());
        push_str_chars(&mut v, "/api/v1");
        string_from_chars(v.as_slice())
    }
}

/// The value of a `url = <value>` line, when `line` is one with a
/// non-empty value.
pub open spec fn url_value(line: Seq<char>) -> Option<Seq<char>> {
    if has_prefix(line, "url"@) {
        let r = trim_start(line.skip(3));
        if r.len() > 0 && r[0] == '=' && trim(r.skip(1)).len() > 0 {
            Some(trim(r.skip(1)))
        } else {
            None
        }
    } else {
        None
    }
}

/// Scan of config lines for the first `url` inside the section headed
/// `header`; `in_section` says whether the scan starts inside it.
pub open spec fn config_scan(ls: Seq<Seq<char>>, header: Seq<char>, in_section: bool) -> Option<Seq<char>>
    decreases ls.len(),
{
    if ls.len() == 0 {
        None
    } else {
        let l = trim(ls[0]);
        if l.len() > 0 && l[0] == '[' {
            config_scan(ls.skip(1), header, l == header)
        } else if in_section && url_value(l) is Some {
            url_value(l)
        } else {
            config_scan(ls.skip(1), header, in_section)
        }
    }
}

/// The header of a remote's section: `[remote "<name>"]`.
pub open spec fn remote_header(remote: Seq<char>) -> Seq<char> {
    "[remote \""@ + remote + "\"]"@
}

fn url_value_of(line: &[char]) -> (r: Option<String>)
    ensures
        match r {
            Some(v) => url_value(line@) == Some(v@),
            None => url_value(line@) is None,
        },
{
    let url = chars_of("url");
    assert(url@.len() == 3) by {
        reveal_strlit("url");
    }
    if !starts_with(line, url.as_slice()) {
        return None;
    }
    let rest = &line[3..line.len()];
    assert(rest@ =~= line@.skip(3));
    let (a, _b) = trim_bounds(rest);
    if a < rest.len() && rest[a] == '=' {
        let after = &rest[a + 1..rest.len()];
        assert(after@ =~= rest@.skip(a as int).skip(1));
        let (c, d) = trim_bounds(after);
        if c < d {
            return Some(string_from_range(after, c, d));
        }
    }
    None
}

/// `remote.<name>.url` from the text of a git config file: a minimal
/// INI walk for `[remote "name"]` sections and their `url` keys.
pub fn parse_git_config_remote_url(config: &str, remote: &str) -> (r: Option<String>)
    ensures
        match r {
            Some(v) => config_scan(lines(config@), remote_header(remote@), false) == Some(v@),
            None => config_scan(lines(config@), remote_header(remote@), false) is None,
        },
{
    let mut header: Vec<char> = chars_of("[remote \"");
    push_str_chars(&mut header, remote);
    push_str_chars(&mut header, "\"]");
    let ls = lines_of(config);
    let ghost all = ls.deep_view();
    let mut in_section = false;
    let mut i: usize = 0;
    assert(all.skip(0) =~= all);
    while i < ls.len()
        invariant
            i <= ls.len(),
            all == ls.deep_view(),
            all == lines(config@),
            header@ == remote_header(remote@),
            config_scan(all, header@, false) == config_scan(all.skip(i as int), header@, in_section),
        decreases ls.len() - i,
    {
        let lc = chars_of(ls[i].as_str());
        let (a, b) = trim_bounds(lc.as_slice());
        let l = &lc.as_slice()[a..b];
        assert(all.skip(i as int)[0] == lc@);
        assert(all.skip(i as int).skip(1) =~= all.skip(i + 1));
        if l.len() > 0 && l[0] == '[' {
            in_section = crate::text::chars_eq(l, header.as_slice());
        } else if in_section {
            match url_value_of(l) {
                Some(v) => {
                    return Some(v);
                },
                None => {},
            }
        }
        i = i + 1;
    }
    None
}

/// The bare host of an fj host name: up to the first `/`, then up to
/// the first `:`.
pub open spec fn fj_bare_host(name: Seq<char>) -> Seq<char> {
    before_char(before_char(name, '/'), ':')
}

/// Names contributed by the alias members `ms`: each alias, then its
/// target when that is a string.
pub open spec fn alias_names(ms: Seq<(String, Json)>) -> Seq<Seq<char>>
    decreases ms.len(),
{
    if ms.len() == 0 {
        seq![]
    } else {
        let last = ms.last();
        let own = match spec_as_str(last.1) {
            Some(t) => seq![last.0@, t],
            None => seq![last.0@],
        };
        alias_names(ms.drop_last()) + own
    }
}

/// Names of an fj `keys.json` document: the keys of `hosts`, then the
/// names contributed by `aliases`.
pub open spec fn fj_names(doc: Json) -> Seq<Seq<char>> {
    let hosts = match spec_get(doc, "hosts"@) {
        Some(Json::Object(m)) => m@.map_values(|p: (String, Json)| p.0@),
        _ => seq![],
    };
    let aliases = match spec_get(doc, "aliases"@) {
        Some(Json::Object(m)) => alias_names(m@),
        _ => seq![],
    };
    hosts + aliases
}

/// The Forgejo host set of a `keys.json` document.
pub open spec fn fj_host_set(doc: Json) -> Set<Seq<char>> {
    Set::new(|h: Seq<char>| h.len() > 0 && exists|i: int| 0 <= i < fj_names(doc).len() && fj_bare_host(#[trigger] fj_names(doc)[i]) == h)
}

fn bare_host_of(name: &str) -> (r: Vec<char>)
    ensures
        r@ == fj_bare_host(name@),
{
    let cs = chars_of(name);
    let k1 = before_char_len(cs.as_slice(), '/');
    let first = &cs.as_slice()[0..k1];
    assert(first@ =~= cs@.take(k1 as int));
    let k2 = before_char_len(first, ':');
    let mut out: Vec<char> = Vec::new();
    push_chars(&mut out, &first[0..k2]);
    assert(out@ =~= first@.take(k2 as int));
    out
}

fn insert_host(hosts: &mut Vec<String>, name: &str)
    requires
        old(hosts).deep_view().no_duplicates(),
    ensures
        final(hosts).deep_view().no_duplicates(),
        final(hosts).deep_view().to_set() == if fj_bare_host(name@).len() > 0 {
            old(hosts).deep_view().to_set().insert(fj_bare_host(name@))
        } else {
            old(hosts).deep_view().to_set()
        },
{
    let bare = bare_host_of(name);
    if bare.len() == 0 {
        return;
    }
    if contains_str(hosts.as_slice(), bare.as_slice()) {
        assert(hosts.deep_view().to_set().insert(bare@) =~= hosts.deep_view().to_set());
        return;
    }
    let ghost before = hosts.deep_view();
    hosts.push(string_from_chars(bare.as_slice()));
    assert(hosts.deep_view() =~= before.push(bare@));
    proof {
        before.lemma_push_to_set_commute(bare@);
    }
}

/// The hosts of an fj `keys.json` document (the host keys, the aliases
/// and their string targets), each by its bare host, without repeats.
pub fn parse_fj_hosts(doc: &Json) -> (out: Vec<String>)
    ensures
        out.deep_view().no_duplicates(),
        out.deep_view().to_set() == fj_host_set(*doc),
{
    let mut out: Vec<String> = Vec::new();
    let ghost names = fj_names(*doc);
    let ghost mut seen: Seq<Seq<char>> = seq![];
    let ghost host_part: Seq<Seq<char>> = match spec_get(*doc, "hosts"@) {
        Some(Json::Object(m)) => m@.map_values(|p: (String, Json)| p.0@),
        _ => seq![],
    };
    if let Some(Json::Object(m)) = doc.get("hosts") {
        let mut i: usize = 0;
        while i < m.len()
            invariant
                i <= m.len(),
                host_part == m@.map_values(|p: (String, Json)| p.0@),
                seen == host_part.take(i as int),
                out.deep_view().no_duplicates(),
                out.deep_view().to_set() == Set::new(|h: Seq<char>| h.len() > 0 && exists|j: int| 0 <= j < seen.len() && fj_bare_host(#[trigger] seen[j]) == h),
            decreases m.len() - i,
        {
            let ghost before = out.deep_view().to_set();
            insert_host(&mut out, m[i].0.as_str());
            proof {
                let old_seen = seen;
                seen = host_part.take(i + 1);
                assert(seen =~= old_seen.push(m@[i as int].0@));
                assert(out.deep_view().to_set() =~= Set::new(|h: Seq<char>| h.len() > 0 && exists|j: int| 0 <= j < seen.len() && fj_bare_host(#[trigger] seen[j]) == h)) by {
                    assert forall|h: Seq<char>| #![auto] out.deep_view().to_set().contains(h) <==> (h.len() > 0 && exists|j: int| 0 <= j < seen.len() && fj_bare_host(#[trigger] seen[j]) == h) by {
                        if h.len() > 0 && exists|j: int| 0 <= j < seen.len() && fj_bare_host(#[trigger] seen[j]) == h {
                            let j = choose|j: int| 0 <= j < seen.len() && fj_bare_host(#[trigger] seen[j]) == h;
                            if j < old_seen.len() {
                                assert(old_seen[j] == seen[j]);
                            }
                        }
                        if before.contains(h) {
                            let j = choose|j: int| 0 <= j < old_seen.len() && fj_bare_host(#[trigger] old_seen[j]) == h;
                            assert(seen[j] == old_seen[j]);
                        }
                        if out.deep_view().to_set().contains(h) && !before.contains(h) {
                            assert(seen[old_seen.len() as int] == m@[i as int].0@);
                        }
                    }
                }
            }
            i = i + 1;
        }
        assert(seen =~= host_part);
    } else {
        assert(host_part =~= Seq::<Seq<char>>::empty());
        assert(seen =~= host_part);
        assert(out.deep_view().to_set() =~= Set::<Seq<char>>::empty());
        assert(Set::new(|h: Seq<char>| h.len() > 0 && exists|j: int| 0 <= j < seen.len() && fj_bare_host(#[trigger] seen[j]) == h) =~= Set::<Seq<char>>::empty());
    }
    if let Some(Json::Object(m)) = doc.get("aliases") {
        let mut i: usize = 0;
        let ghost base = seen;
        while i < m.len()
            invariant
                i <= m.len(),
                seen == base + alias_names(m@.take(i as int)),
                out.deep_view().no_duplicates(),
                out.deep_view().to_set() == Set::new(|h: Seq<char>| h.len() > 0 && exists|j: int| 0 <= j < seen.len() && fj_bare_host(#[trigger] seen[j]) == h),
            decreases m.len() - i,
        {
            let ghost old_seen = seen;
            let ghost before = out.deep_view().to_set();
            insert_host(&mut out, m[i].0.as_str());
            let ghost mid = out.deep_view().to_set();
            let target = m[i].1.as_str();
            if let Some(t) = target {
                insert_host(&mut out, t);
            }
            proof {
                let own = match spec_as_str(m@[i as int].1) {
                    Some(t) => seq![m@[i as int].0@, t],
                    None => seq![m@[i as int].0@],
                };
                assert(m@.take(i + 1).drop_last() =~= m@.take(i as int));
                assert(m@.take(i + 1).last() == m@[i as int]);
                seen = base + alias_names(m@.take(i + 1));
                assert(seen =~= old_seen + own);
                assert forall|h: Seq<char>| #![auto] out.deep_view().to_set().contains(h) <==> (h.len() > 0 && exists|j: int| 0 <= j < seen.len() && fj_bare_host(#[trigger] seen[j]) == h) by {
                    if h.len() > 0 && exists|j: int| 0 <= j < seen.len() && fj_bare_host(#[trigger] seen[j]) == h {
                        let j = choose|j: int| 0 <= j < seen.len() && fj_bare_host(#[trigger] seen[j]) == h;
                        if j < old_seen.len() {
                            assert(old_seen[j] == seen[j]);
                        } else {
                            assert(seen[j] == own[j - old_seen.len()]);
                        }
                    }
                    if before.contains(h) {
                        let j = choose|j: int| 0 <= j < old_seen.len() && fj_bare_host(#[trigger] old_seen[j]) == h;
                        assert(seen[j] == old_seen[j]);
                    }
                    if out.deep_view().to_set().contains(h) && !before.contains(h) {
                        if h == fj_bare_host(m@[i as int].0@) {
                            assert(seen[old_seen.len() as int] == m@[i as int].0@);
                        } else {
                            assert(seen[old_seen.len() as int + 1] == own[1]);
                        }
                    }
                }
                assert(out.deep_view().to_set() =~= Set::new(|h: Seq<char>| h.len() > 0 && exists|j: int| 0 <= j < seen.len() && fj_bare_host(#[trigger] seen[j]) == h));
            }
            i = i + 1;
        }
        assert(m@.take(m.len() as int) =~= m@);
    } else {
    }
    proof {
        assert(seen =~= names);
        assert(out.deep_view().to_set() =~= fj_host_set(*doc));
    }
    out
}

/// Index of the first `hosts` member whose key has bare host `bare`.
pub open spec fn first_host_member(ms: Seq<(String, Json)>, bare: Seq<char>) -> Option<int>
    decreases ms.len(),
{
    if ms.len() == 0 {
        None
    } else if fj_bare_host(ms[0].0@) == bare {
        Some(0)
    } else {
        match first_host_member(ms.skip(1), bare) {
            Some(i) => Some(i + 1),
            None => None,
        }
    }
}

proof fn lemma_first_host_member_found(ms: Seq<(String, Json)>, bare: Seq<char>, i: int)
    requires
        0 <= i < ms.len(),
        fj_bare_host(ms[i].0@) == bare,
        forall|j: int| 0 <= j < i ==> fj_bare_host(#[trigger] ms[j].0@) != bare,
    ensures
        first_host_member(ms, bare) == Some(i),
    decreases i,
{
    if i > 0 {
        assert forall|j: int| 0 <= j < i - 1 implies fj_bare_host(#[trigger] ms.skip(1)[j].0@) != bare by {
            assert(ms.skip(1)[j] == ms[j + 1]);
        }
        lemma_first_host_member_found(ms.skip(1), bare, i - 1);
    }
}

proof fn lemma_first_host_member_absent(ms: Seq<(String, Json)>, bare: Seq<char>)
    requires
        forall|j: int| 0 <= j < ms.len() ==> fj_bare_host(#[trigger] ms[j].0@) != bare,
    ensures
        first_host_member(ms, bare) is None,
    decreases ms.len(),
{
    if ms.len() > 0 {
        assert forall|j: int| 0 <= j < ms.len() - 1 implies fj_bare_host(#[trigger] ms.skip(1)[j].0@) != bare by {
            assert(ms.skip(1)[j] == ms[j + 1]);
        }
        lemma_first_host_member_absent(ms.skip(1), bare);
    }
}

/// The token of an fj login value: under `Application`, else under
/// `OAuth`; `None` when missing or empty.
pub open spec fn login_token(login: Json) -> Option<Seq<char>> {
    let holder = match spec_get(login, "Application"@) {
        Some(a) => Some(a),
        None => spec_get(login, "OAuth"@),
    };
    match holder {
        Some(h) => match get_str(h, "token"@) {
            Some(t) => if t.len() > 0 { Some(t) } else { None },
            None => None,
        },
        None => None,
    }
}

/// The token fj stores for `host` in a `keys.json` document.
pub open spec fn fj_token_spec(doc: Json, host: Seq<char>) -> Option<Seq<char>> {
    match spec_get(doc, "hosts"@) {
        Some(Json::Object(m)) => match first_host_member(m@, before_char(host, ':')) {
            Some(i) => login_token(m@[i].1),
            None => None,
        },
        _ => None,
    }
}

/// The token fj stores for `host` (matched by bare host, port ignored).
/// Both login shapes fj writes are read: `Application` and `OAuth`.
pub fn parse_fj_token(doc: &Json, host: &str) -> (r: Option<String>)
    ensures
        match r {
            Some(t) => fj_token_spec(*doc, host@) == Some(t@),
            None => fj_token_spec(*doc, host@) is None,
        },
{
    let hc = chars_of(host);
    let k = before_char_len(hc.as_slice(), ':');
    let bare = &hc.as_slice()[0..k];
    assert(bare@ =~= before_char(host@, ':'));
    let m = match doc.get("hosts") {
        Some(Json::Object(m)) => m,
        _ => {
            return None;
        },
    };
    let mut i: usize = 0;
    while i < m.len()
        invariant
            i <= m.len(),
            spec_get(*doc, "hosts"@) == Some(Json::Object(*m)),
            bare@ == before_char(host@, ':'),
            forall|j: int| 0 <= j < i ==> fj_bare_host(#[trigger] m@[j].0@) != bare@,
        decreases m.len() - i,
    {
        let key_bare = bare_host_of(m[i].0.as_str());
        if crate::text::chars_eq(key_bare.as_slice(), bare) {
            proof {
                lemma_first_host_member_found(m@, bare@, i as int);
            }
            let login = &m[i].1;
            let holder = match login.get("Application") {
                Some(a) => Some(a),
                None => login.get("OAuth"),
            };
            let token = match holder {
                Some(h) => h.get_str("token"),
                None => None,
            };
            return match token {
                Some(t) => {
                    if t.unicode_len() == 0 {
                        None
                    } else {
                        Some(t.to_owned())
                    }
                },
                None => None,
            };
        }
        i = i + 1;
    }
    proof {
        lemma_first_host_member_absent(m@, bare@);
    }
    None
}

/// The `message` string of a Forgejo error body.
pub fn extract_forgejo_message(body: &Json) -> (r: Option<String>)
    ensures
        match r {
            Some(m) => get_str(*body, "message"@) == Some(m@),
            None => get_str(*body, "message"@) is None,
        },
{
    match body.get_str("message") {
        Some(m) => Some(m.to_owned()),
        None => None,
    }
}

/// One open Forgejo pull request.
#[derive(Debug)]
pub struct ForgejoPr {
    pub number: u64,
    pub title: String,
    pub author: String,
    pub head_ref: String,
    pub head_sha: String,
    pub is_draft: bool,
    /// RFC 3339, as the API reports it.
    pub updated_at: String,
    pub html_url: String,
    pub assignees: Vec<String>,
    pub requested_reviewers: Vec<String>,
}

/// The abstract content of a [`ForgejoPr`].
pub ghost struct PrSpec {
    pub number: u64,
    pub title: Seq<char>,
    pub author: Seq<char>,
    pub head_ref: Seq<char>,
    pub head_sha: Seq<char>,
    pub is_draft: bool,
    pub updated_at: Seq<char>,
    pub html_url: Seq<char>,
    pub assignees: Seq<Seq<char>>,
    pub requested_reviewers: Seq<Seq<char>>,
}

impl View for ForgejoPr {
    type V = PrSpec;

    open spec fn view(&self) -> PrSpec {
        PrSpec {
            number: self.number,
            title: self.title@,
            author: self.author@,
            head_ref: self.head_ref@,
            head_sha: self.head_sha@,
            is_draft: self.is_draft,
            updated_at: self.updated_at@,
            html_url: self.html_url@,
            assignees: self.assignees.deep_view(),
            requested_reviewers: self.requested_reviewers.deep_view(),
        }
    }
}

/// The `login` strings of the users `us`, skipping users without one.
pub open spec fn login_list(us: Seq<Json>) -> Seq<Seq<char>>
    decreases us.len(),
{
    if us.len() == 0 {
        seq![]
    } else {
        let own = match get_str(us.last(), "login"@) {
            Some(l) => seq![l],
            None => seq![],
        };
        login_list(us.drop_last()) + own
    }
}

/// The logins of a user-array field; empty when the field is missing
/// or not an array.
pub open spec fn logins_of(field: Option<Json>) -> Seq<Seq<char>> {
    match field {
        Some(Json::Array(a)) => login_list(a@),
        _ => seq![],
    }
}

/// The number of an item: its `number` member when that is a `u64`.
pub open spec fn item_number(item: Json) -> Option<u64> {
    match spec_get(item, "number"@) {
        Some(n) => spec_as_u64(n),
        _ => None,
    }
}

/// A boolean member, `false` when missing or not a boolean.
pub open spec fn bool_or_false(v: Json, key: Seq<char>) -> bool {
    match spec_get(v, key) {
        Some(Json::Bool(b)) => b,
        _ => false,
    }
}

/// The row an item of `/pulls` becomes; `None` when it lacks a number,
/// a title, a `head` or a `head.ref`.
pub open spec fn pr_row(item: Json) -> Option<PrSpec> {
    match (item_number(item), get_str(item, "title"@), spec_get(item, "head"@)) {
        (Some(number), Some(title), Some(head)) => match get_str(head, "ref"@) {
            Some(head_ref) => Some(PrSpec {
                number,
                title,
                author: or_empty(match spec_get(item, "user"@) {
                    Some(u) => get_str(u, "login"@),
                    None => None,
                }),
                head_ref,
                head_sha: or_empty(get_str(head, "sha"@)),
                is_draft: bool_or_false(item, "draft"@),
                updated_at: or_empty(get_str(item, "updated_at"@)),
                html_url: or_empty(get_str(item, "html_url"@)),
                assignees: logins_of(spec_get(item, "assignees"@)),
                requested_reviewers: logins_of(spec_get(item, "requested_reviewers"@)),
            }),
            None => None,
        },
        _ => None,
    }
}

/// The rows of the items `items`, in order, skipping broken ones.
pub open spec fn pr_rows(items: Seq<Json>) -> Seq<PrSpec>
    decreases items.len(),
{
    if items.len() == 0 {
        seq![]
    } else {
        let own = match pr_row(items.last()) {
            Some(r) => seq![r],
            None => seq![],
        };
        pr_rows(items.drop_last()) + own
    }
}

fn logins(field: Option<&Json>) -> (out: Vec<String>)
    ensures
        out.deep_view() == logins_of(match field {
            Some(f) => Some(*f),
            None => None,
        }),
{
    let mut out: Vec<String> = Vec::new();
    if let Some(Json::Array(a)) = field {
        let mut i: usize = 0;
        assert(a@.take(0) =~= Seq::<Json>::empty());
        while i < a.len()
            invariant
                i <= a.len(),
                out.deep_view() == login_list(a@.take(i as int)),
            decreases a.len() - i,
        {
            let ghost before = out.deep_view();
            if let Some(l) = a[i].get_str("login") {
                out.push(l.to_owned());
            }
            assert(a@.take(i + 1).drop_last() =~= a@.take(i as int));
            assert(a@.take(i + 1).last() == a@[i as int]);
            assert(out.deep_view() =~= login_list(a@.take(i + 1)));
            i = i + 1;
        }
        assert(a@.take(a.len() as int) =~= a@);
    }
    out
}

fn pr_row_of(item: &Json) -> (r: Option<ForgejoPr>)
    ensures
        match r {
            Some(p) => pr_row(*item) == Some(p@),
            None => pr_row(*item) is None,
        },
{
    let number = match item.get("number") {
        Some(n) => match n.as_u64() {
            Some(v) => v,
            None => {
                return None;
            },
        },
        None => {
            return None;
        },
    };
    let title = match item.get_str("title") {
        Some(t) => t,
        None => {
            return None;
        },
    };
    let head = match item.get("head") {
        Some(h) => h,
        None => {
            return None;
        },
    };
    let head_ref = match head.get_str("ref") {
        Some(r) => r,
        None => {
            return None;
        },
    };
    let author = match item.get("user") {
        Some(u) => u.get_str("login"),
        None => None,
    };
    let is_draft = match item.get("draft") {
        Some(d) => match d.as_bool() {
            Some(b) => b,
            None => false,
        },
        None => false,
    };
    Some(ForgejoPr {
        number,
        title: title.to_owned(),
        author: string_or_empty(author),
        head_ref: head_ref.to_owned(),
        head_sha: string_or_empty(head.get_str("sha")),
        is_draft,
        updated_at: string_or_empty(item.get_str("updated_at")),
        html_url: string_or_empty(item.get_str("html_url")),
        assignees: logins(item.get("assignees")),
        requested_reviewers: logins(item.get("requested_reviewers")),
    })
}

/// The rows of a `/pulls` reply, skipping items that miss a required
/// field; empty when the reply is not an array.
pub fn parse_forgejo_pr_list(value: &Json) -> (out: Vec<ForgejoPr>)
    ensures
        out@.map_values(|p: ForgejoPr| p@) == match *value {
            Json::Array(a) => pr_rows(a@),
            _ => seq![],
        },
{
    let mut out: Vec<ForgejoPr> = Vec::new();
    if let Json::Array(a) = value {
        let mut i: usize = 0;
        assert(a@.take(0) =~= Seq::<Json>::empty());
        assert(out@.map_values(|p: ForgejoPr| p@) =~= Seq::<PrSpec>::empty());
        while i < a.len()
            invariant
                i <= a.len(),
                out@.map_values(|p: ForgejoPr| p@) == pr_rows(a@.take(i as int)),
            decreases a.len() - i,
        {
            let ghost before = out@;
            if let Some(row) = pr_row_of(&a[i]) {
                out.push(row);
                assert(out@ =~= before.push(row));
            }
            assert(a@.take(i + 1).drop_last() =~= a@.take(i as int));
            assert(a@.take(i + 1).last() == a@[i as int]);
            assert(out@.map_values(|p: ForgejoPr| p@) =~= pr_rows(a@.take(i + 1)));
            i = i + 1;
        }
        assert(a@.take(a.len() as int) =~= a@);
    } else {
        assert(out@.map_values(|p: ForgejoPr| p@) =~= Seq::<PrSpec>::empty());
    }
    out
}

/// The refusal of a write to a host fj holds no login for.
pub open spec fn no_login_message(host: Seq<char>) -> Seq<char> {
    "no fj login for "@ + host + " — run `fj auth login` on the host"@
}

/// Before a Forgejo request: a write (a request with a body) needs a
/// token; a read goes anonymously without one.
pub fn forgejo_precheck(host: &str, has_body: bool, has_token: bool) -> (r: Result<(), String>)
    ensures
        r is Ok <==> !(has_body && !has_token),
        r matches Err(m) ==> m@ == no_login_message(host@),
{
    if has_body && !has_token {
        let mut v = chars_of("no fj login for ");
        push_str_chars(&mut v, host);
        push_str_chars(&mut v, " — run `fj auth login` on the host");
        return Err(string_from_chars(v.as_slice()));
    }
    Ok(())
}

/// What follows a Forgejo reply with HTTP status `status`.
#[derive(Debug)]
pub enum ForgejoNext {
    /// Refresh the fj login once, then retry.
    Refresh,
    /// Fail with this message.
    Fail(String),
    /// Read the error body, then fail with `forgejo_error_message`.
    ReadError,
    /// Success: decode the JSON body.
    Decode,
}

/// The failure of a request the host refused (401 or 403).
pub open spec fn auth_failed_message(host: Seq<char>, status: u16) -> Seq<char> {
    host + " returned "@ + crate::num::decimal(status as nat) + " — run `fj auth login` on the host to (re)authenticate"@
}

/// The next step after a reply with `status`: a first 401 on an
/// authenticated request refreshes the login; 401 and 403 then fail as
/// authentication errors; other non-2xx statuses fail with the body's
/// message; 2xx decodes.
pub open spec fn forgejo_next_spec(status: u16, refreshed: bool, has_token: bool) -> int {
    if status == 401 && !refreshed && has_token {
        0
    } else if status == 401 || status == 403 {
        1
    } else if !(200 <= status < 300) {
        2
    } else {
        3
    }
}

/// Decide what follows a Forgejo reply with `status` on `host`;
/// `refreshed` is whether the login was already refreshed once.
pub fn forgejo_after_status(host: &str, status: u16, refreshed: bool, has_token: bool) -> (r: ForgejoNext)
    ensures
        match r {
            ForgejoNext::Refresh => forgejo_next_spec(status, refreshed, has_token) == 0,
            ForgejoNext::Fail(m) => forgejo_next_spec(status, refreshed, has_token) == 1 && m@ == auth_failed_message(
                host@,
                status,
            ),
            ForgejoNext::ReadError => forgejo_next_spec(status, refreshed, has_token) == 2,
            ForgejoNext::Decode => forgejo_next_spec(status, refreshed, has_token) == 3,
        },
{
    if status == 401 && !refreshed && has_token {
        ForgejoNext::Refresh
    } else if status == 401 || status == 403 {
        let mut v = chars_of(host);
        push_str_chars(&mut v, " returned ");
        let d = crate::num::decimal_chars(status as u64);
        push_chars(&mut v, d.as_slice());
        push_str_chars(&mut v, " — run `fj auth login` on the host to (re)authenticate");
        ForgejoNext::Fail(string_from_chars(v.as_slice()))
    } else if !(200 <= status && status < 300) {
        ForgejoNext::ReadError
    } else {
        ForgejoNext::Decode
    }
}

/// The failure of a request answered with a non-2xx `status` and error
/// body `body` (decoded as `json` when it is JSON): the body's
/// `message` when it has one, else the body, trimmed.
pub open spec fn error_message_spec(host: Seq<char>, status: u16, json: Option<Json>, body: Seq<char>) -> Seq<char> {
    let detail = match json {
        Some(j) => match get_str(j, "message"@) {
            Some(m) => m,
            None => body,
        },
        None => body,
    };
    host + " returned "@ + crate::num::decimal(status as nat) + ": "@ + trim(detail)
}

/// The message of a failed Forgejo request.
pub fn forgejo_error_message(host: &str, status: u16, json: Option<&Json>, body: &str) -> (r: String)
    ensures
        r@ == error_message_spec(host@, status, match json {
            Some(j) => Some(*j),
            None => None,
        }, body@),
{
    let detail: String = match json {
        Some(j) => match extract_forgejo_message(j) {
            Some(m) => m,
            None => body.to_owned(),
        },
        None => body.to_owned(),
    };
    let mut v = chars_of(host);
    push_str_chars(&mut v, " returned ");
    let d = crate::num::decimal_chars(status as u64);
    push_chars(&mut v, d.as_slice());
    push_str_chars(&mut v, ": ");
    let dc = chars_of(detail.as_str());
    let (a, b) = crate::text::trim_bounds(dc.as_slice());
    push_chars(&mut v, &dc.as_slice()[a..b]);
    assert(dc@.subrange(a as int, b as int) == trim(detail@));
    string_from_chars(v.as_slice())
}

/// The login of a `/user` reply: its non-empty `login`, else an error.
pub fn forgejo_user_login(host: &str, value: &Json) -> (r: Result<String, String>)
    ensures
        match get_str(*value, "login"@) {
            Some(l) => if l.len() > 0 {
                r matches Ok(s) && s@ == l
            } else {
                r matches Err(m) && m@ == host@ + ": /user returned no login"@
            },
            None => r matches Err(m) && m@ == host@ + ": /user returned no login"@,
        },
{
    match value.get_str("login") {
        Some(l) => {
            let lc = chars_of(l);
            if lc.len() > 0 {
                return Ok(l.to_owned());
            }
        },
        None => {},
    }
    let mut v = chars_of(host);
    push_str_chars(&mut v, ": /user returned no login");
    Err(string_from_chars(v.as_slice()))
}

/// The `html_url` of a posted review, empty when missing.
pub fn review_html_url(value: &Json) -> (r: String)
    ensures
        r@ == or_empty(get_str(*value, "html_url"@)),
{
    string_or_empty(value.get_str("html_url"))
}

/// `/repos/<owner/repo>/pulls?state=open&sort=recentupdate&limit=<n>`.
pub fn open_pulls_path(remote: &ForgeRemote, limit: usize) -> (r: String)
    ensures
        r@ == "/repos/"@ + remote.owner_repo@ + "/pulls?state=open&sort=recentupdate&limit="@
            + crate::num::decimal(limit as nat),
{
    let mut v = chars_of("/repos/");
    push_str_chars(&mut v, remote.owner_repo.as_str());
    push_str_chars(&mut v, "/pulls?state=open&sort=recentupdate&limit=");
    let d = crate::num::decimal_chars(limit as u64);
    push_chars(&mut v, d.as_slice());
    string_from_chars(v.as_slice())
}

/// `/repos/<owner/repo>/pulls/<number>/reviews`.
pub fn reviews_path(remote: &ForgeRemote, number: u64) -> (r: String)
    ensures
        r@ == "/repos/"@ + remote.owner_repo@ + "/pulls/"@ + crate::num::decimal(number as nat) + "/reviews"@,
{
    let mut v = chars_of("/repos/");
    push_str_chars(&mut v, remote.owner_repo.as_str());
    push_str_chars(&mut v, "/pulls/");
    let d = crate::num::decimal_chars(number);
    push_chars(&mut v, d.as_slice());
    push_str_chars(&mut v, "/reviews");
    string_from_chars(v.as_slice())
}

/// Where fj may keep its `keys.json`, most specific first: under
/// `$XDG_DATA_HOME` (when set and non-empty), then under `$HOME` in the
/// Linux and the two macOS layouts.
pub open spec fn fj_keys_candidates(xdg: Option<Seq<char>>, home: Option<Seq<char>>) -> Seq<Seq<char>> {
    let a = match xdg {
        Some(x) => if x.len() > 0 {
            seq![crate::paths::utf8_join(x, "forgejo-cli/keys.json"@)]
        } else {
            seq![]
        },
        None => seq![],
    };
    let b = match home {
        Some(h) => seq![
            crate::paths::utf8_join(h, ".local/share/forgejo-cli/keys.json"@),
            crate::paths::utf8_join(h, "Library/Application Support/forgejo-cli.forgejo-cli/keys.json"@),
            crate::paths::utf8_join(h, "Library/Application Support/Cyborus.forgejo-cli/keys.json"@),
        ],
        None => seq![],
    };
    a + b
}

/// Candidate paths of fj's `keys.json` for the given `$XDG_DATA_HOME`
/// and `$HOME`.
pub fn fj_keys_paths(xdg: Option<&str>, home: Option<&str>) -> (r: Vec<String>)
    ensures
        r.deep_view() == fj_keys_candidates(match xdg {
            Some(x) => Some(x@),
            None => None,
        }, match home {
            Some(h) => Some(h@),
            None => None,
        }),
{
    let mut out: Vec<String> = Vec::new();
    if let Some(x) = xdg {
        let xc = chars_of(x);
        if xc.len() > 0 {
            out.push(crate::paths::join_path(x, "forgejo-cli/keys.json"));
        }
    }
    if let Some(h) = home {
        out.push(crate::paths::join_path(h, ".local/share/forgejo-cli/keys.json"));
        out.push(crate::paths::join_path(h, "Library/Application Support/forgejo-cli.forgejo-cli/keys.json"));
        out.push(crate::paths::join_path(h, "Library/Application Support/Cyborus.forgejo-cli/keys.json"));
    }
    assert(out.deep_view() =~= fj_keys_candidates(match xdg {
        Some(x) => Some(x@),
        None => None,
    }, match home {
        Some(h) => Some(h@),
        None => None,
    }));
    out
}

} // verus!
