//! Where the project config is found, and the repository identity from git
//! remote configuration: the `origin` URL of a git config, normalized to
//! `host/owner/repo`.
use vstd::prelude::*;
use crate::filters::path_parts::{file_name, lemma_parent_shorter, parent, spec_file_name, spec_parent};
use crate::paths::{path_join, spec_path_join};
use crate::text::{
    chars_of, has_at, is_prefix, is_suffix, is_ws, lines_from, slice_chars, split_lines, string_of,
    trim, trim_chars, trim_end, trim_start,
};

verus! {

/// `s` without the suffix `p` when it ends with it.
pub open spec fn strip_suffix(s: Seq<char>, p: Seq<char>) -> Seq<char> {
    if is_suffix(p, s) { s.take(s.len() - p.len()) } else { s }
}

/// Position of the first `c` in `s` at or after `from`, or -1.
pub open spec fn find_char(s: Seq<char>, c: char, from: int) -> int
    decreases s.len() - from,
{
    if from < 0 || from >= s.len() {
        -1
    } else if s[from] == c {
        from
    } else {
        find_char(s, c, from + 1)
    }
}

/// A git remote URL as `host/owner/repo`: SCP style `git@host:path`, or
/// `https://`, `ssh://git@` or `ssh://` URLs, without a `.git` suffix;
/// nothing for other text.
pub open spec fn normalized_remote(url: Seq<char>) -> Option<Seq<char>> {
    let u = trim(url);
    if is_prefix("git@"@, u) {
        let rest = u.skip(4);
        let k = find_char(rest, ':', 0);
        if k < 0 {
            None
        } else {
            Some(rest.take(k) + seq!['/'] + strip_suffix(rest.skip(k + 1), ".git"@))
        }
    } else if is_prefix("https://"@, u) {
        Some(strip_suffix(u.skip(8), ".git"@))
    } else if is_prefix("ssh://git@"@, u) {
        Some(strip_suffix(u.skip(10), ".git"@))
    } else if is_prefix("ssh://"@, u) {
        Some(strip_suffix(u.skip(6), ".git"@))
    } else {
        None
    }
}

proof fn lemma_find_char(s: Seq<char>, c: char, from: int)
    requires
        0 <= from,
    ensures
        find_char(s, c, from) == -1 || (from <= find_char(s, c, from) < s.len() && s[find_char(s, c, from)] == c),
    decreases s.len() - from,
{
    if from < s.len() {
        lemma_find_char(s, c, from + 1);
    }
}

fn without_git_suffix(v: &Vec<char>, from: usize) -> (r: String)
    requires
        from <= v@.len(),
    ensures
        r@ == strip_suffix(v@.skip(from as int), ".git"@),
{
    let rest = slice_chars(v, from, v.len());
    assert(rest@ =~= v@.skip(from as int));
    let n = rest.len();
    if n >= 4 && has_at(&rest, n - 4, ".git") {
        assert(rest@.skip(n - 4).take(4) =~= rest@.skip(n - 4));
        proof {
            reveal_strlit(".git");
        }
        string_of(&slice_chars(&rest, 0, n - 4))
    } else {
        proof {
            reveal_strlit(".git");
            if n >= 4 {
                assert(rest@.skip(n - 4).take(4) =~= rest@.skip(n - 4));
            }
        }
        assert(rest@.subrange(0, n as int) =~= rest@);
        string_of(&rest)
    }
}

/// Normalize a git remote URL to `host/owner/repo` form.
pub fn normalize_remote_url(url: &str) -> (r: Option<String>)
    ensures
        match r {
            Some(s) => normalized_remote(url@) == Some(s@),
            None => normalized_remote(url@).is_none(),
        },
{
    let u = trim_chars(&chars_of(url));
    proof {
        reveal_strlit("git@");
        reveal_strlit("https://");
        reveal_strlit("ssh://git@");
        reveal_strlit("ssh://");
    }
    if has_at(&u, 0, "git@") {
        assert(u@.skip(0) =~= u@);
        let mut k: usize = 4;
        proof {
            lemma_find_char(u@.skip(4), ':', 0);
        }
        while k < u.len() && u[k] != ':'
            invariant
                4 <= k <= u@.len(),
                find_char(u@.skip(4), ':', k - 4) == find_char(u@.skip(4), ':', 0),
            decreases u@.len() - k,
        {
            k = k + 1;
        }
        if k >= u.len() {
            return None;
        }
        assert(find_char(u@.skip(4), ':', 0) == k - 4);
        let host = slice_chars(&u, 4, k);
        assert(host@ =~= u@.skip(4).take(k - 4));
        let path = without_git_suffix(&u, k + 1);
        assert(u@.skip(4).skip(k - 4 + 1) =~= u@.skip(k + 1));
        let mut out = host;
        out.push('/');
        crate::text::push_str(&mut out, path.as_str());
        return Some(string_of(&out));
    }
    assert(u@.skip(0) =~= u@);
    let from: usize = if has_at(&u, 0, "https://") {
        8
    } else if has_at(&u, 0, "ssh://git@") {
        10
    } else if has_at(&u, 0, "ssh://") {
        6
    } else {
        return None;
    };
    Some(without_git_suffix(&u, from))
}

/// The `url` of the `[remote "origin"]` section, scanning the lines from
/// `i` on; `in_origin` tells whether the scan is inside that section.
pub open spec fn origin_scan(ls: Seq<Seq<char>>, i: int, in_origin: bool) -> Option<Seq<char>>
    decreases ls.len() - i,
{
    if i < 0 || i >= ls.len() {
        None
    } else {
        let t = trim(ls[i]);
        let rest = trim_start(t.skip(3));
        if t.len() > 0 && t[0] == '[' {
            origin_scan(ls, i + 1, t == "[remote \"origin\"]"@)
        } else if in_origin && is_prefix("url"@, t) && rest.len() > 0 && rest[0] == '=' {
            Some(trim(rest.skip(1)))
        } else {
            origin_scan(ls, i + 1, in_origin)
        }
    }
}

fn skip_white(v: &Vec<char>, from: usize) -> (r: usize)
    requires
        from <= v@.len(),
    ensures
        from <= r <= v@.len(),
        v@.skip(r as int) == trim_start(v@.skip(from as int)),
{
    let mut k = from;
    while k < v.len() && crate::text::is_white(v[k])
        invariant
            from <= k <= v@.len(),
            trim_start(v@.skip(k as int)) == trim_start(v@.skip(from as int)),
        decreases v@.len() - k,
    {
        assert(v@.skip(k as int).skip(1) =~= v@.skip(k + 1));
        k = k + 1;
    }
    assert(trim_start(v@.skip(k as int)) == v@.skip(k as int)) by {
        if k < v@.len() {
            assert(v@.skip(k as int)[0] == v@[k as int]);
        }
    }
    k
}

/// Extract the URL of `[remote "origin"]` from a git config text.
pub fn parse_origin_url(config: &str) -> (r: Option<String>)
    ensures
        match r {
            Some(s) => origin_scan(lines_from(config@, 0), 0, false) == Some(s@),
            None => origin_scan(lines_from(config@, 0), 0, false).is_none(),
        },
{
    let lines = split_lines(config);
    let ghost ls = lines@.map_values(|l: Vec<char>| l@);
    let mut in_origin = false;
    let mut i: usize = 0;
    while i < lines.len()
        invariant
            i <= lines@.len(),
            ls == lines@.map_values(|l: Vec<char>| l@),
            ls == lines_from(config@, 0),
            origin_scan(ls, i as int, in_origin) == origin_scan(ls, 0, false),
        decreases lines@.len() - i,
    {
        let t = trim_chars(&lines[i]);
        assert(t@ == trim(ls[i as int]));
        if t.len() > 0 && t[0] == '[' {
            let hdr = string_of(&t);
            in_origin = crate::text::str_eq(hdr.as_str(), "[remote \"origin\"]");
        } else if in_origin && has_at(&t, 0, "url") {
            proof {
                reveal_strlit("url");
                assert(t@.skip(0) =~= t@);
            }
            let k = skip_white(&t, 3);
            if k < t.len() && t[k] == '=' {
                let v = trim_chars(&slice_chars(&t, k + 1, t.len()));
                assert(t@.skip(k as int).skip(1) =~= t@.subrange(k + 1, t@.len() as int));
                return Some(string_of(&v));
            }
        } else {
            proof {
                reveal_strlit("url");
                assert(t@.skip(0) =~= t@);
            }
        }
        i = i + 1;
    }
    None
}

/// The directory basename, the fallback repository identity.
pub fn repo_root_basename(repo_root: &str) -> (r: Option<String>)
    ensures
        match r {
            Some(s) => spec_file_name(repo_root@) == Some(s@),
            None => spec_file_name(repo_root@).is_none(),
        },
{
    file_name(repo_root)
}

/// The identity of a repository whose git config is `git_config`: the
/// normalized `origin` URL, else the basename of `repo_root`.
pub open spec fn git_identity(git_config: Seq<char>, repo_root: Seq<char>) -> Option<Seq<char>> {
    match origin_scan(lines_from(git_config, 0), 0, false) {
        Some(u) => match normalized_remote(u) {
            Some(n) => Some(n),
            None => spec_file_name(repo_root),
        },
        None => spec_file_name(repo_root),
    }
}

/// The repository identity from the text of its git config.
pub fn identity_from_git_config(git_config: &str, repo_root: &str) -> (r: Option<String>)
    ensures
        match r {
            Some(s) => git_identity(git_config@, repo_root@) == Some(s@),
            None => git_identity(git_config@, repo_root@).is_none(),
        },
{
    match parse_origin_url(git_config) {
        Some(u) => match normalize_remote_url(u.as_str()) {
            Some(n) => Some(n),
            None => repo_root_basename(repo_root),
        },
        None => repo_root_basename(repo_root),
    }
}

/// The user configuration directory for the values of `XDG_CONFIG_HOME`
/// and `HOME`: `$XDG_CONFIG_HOME/jjwt` when that is set and not empty,
/// else `$HOME/.config/jjwt`; nothing when neither is available.
pub open spec fn config_dir_of(xdg: Option<Seq<char>>, home: Option<Seq<char>>) -> Option<Seq<char>> {
    match xdg {
        Some(x) if x.len() > 0 => Some(spec_path_join(x, "jjwt"@)),
        _ => match home {
            Some(h) => Some(spec_path_join(spec_path_join(h, ".config"@), "jjwt"@)),
            None => None,
        },
    }
}

/// Choose the user configuration directory from the environment values.
pub fn user_config_dir_from(xdg: Option<&str>, home: Option<&str>) -> (r: Option<String>)
    ensures
        match r {
            Some(s) => config_dir_of(
                match xdg { Some(x) => Some(x@), None => None },
                match home { Some(h) => Some(h@), None => None },
            ) == Some(s@),
            None => config_dir_of(
                match xdg { Some(x) => Some(x@), None => None },
                match home { Some(h) => Some(h@), None => None },
            ) is None,
        },
{
    if let Some(x) = xdg {
        if chars_of(x).len() > 0 {
            return Some(path_join(x, "jjwt"));
        }
    }
    match home {
        Some(h) => {
            let c = path_join(h, ".config");
            Some(path_join(c.as_str(), "jjwt"))
        },
        None => None,
    }
}

/// `s` and its ancestors, nearest first, as repeated `Path::parent` gives
/// them.
pub open spec fn ancestors(s: Seq<char>) -> Seq<Seq<char>>
    decreases s.len(),
{
    match spec_parent(s) {
        Some(p) => {
            proof {
                lemma_parent_shorter(s);
            }
            seq![s] + ancestors(p)
        },
        None => seq![s],
    }
}

/// The project config file of a directory: `<dir>/.config/wt.toml`.
pub open spec fn config_file_of(dir: Seq<char>) -> Seq<char> {
    spec_path_join(spec_path_join(dir, ".config"@), "wt.toml"@)
}

/// The places the project config is looked for from `start`, nearest
/// first.
pub open spec fn config_candidates_of(start: Seq<char>) -> Seq<Seq<char>> {
    ancestors(start).map_values(|d: Seq<char>| config_file_of(d))
}

/// The places the project config is looked for from `start`: the
/// `.config/wt.toml` of `start` and of each of its ancestors, nearest
/// first.
pub fn config_candidates(start: &str) -> (r: Vec<String>)
    ensures
        r@.map_values(|c: String| c@) == config_candidates_of(start@),
{
    let mut out: Vec<String> = Vec::new();
    let mut cur: String = start.to_owned();
    loop
        invariant
            out@.map_values(|c: String| c@) + config_candidates_of(cur@) == config_candidates_of(start@),
        decreases cur@.len(),
    {
        let dir = path_join(cur.as_str(), ".config");
        let file = path_join(dir.as_str(), "wt.toml");
        let ghost before = out@.map_values(|c: String| c@);
        proof {
            lemma_parent_shorter(cur@);
        }
        let up = parent(cur.as_str());
        out.push(file);
        assert(out@.map_values(|c: String| c@) =~= before.push(config_file_of(cur@)));
        match up {
            Some(p) => {
                assert(config_candidates_of(cur@) =~= seq![config_file_of(cur@)] + config_candidates_of(p@));
                assert(before.push(config_file_of(cur@)) + config_candidates_of(p@) =~= before
                    + config_candidates_of(cur@));
                cur = p;
            },
            None => {
                assert(config_candidates_of(cur@) =~= seq![config_file_of(cur@)]);
                assert(before.push(config_file_of(cur@)) =~= before + config_candidates_of(cur@));
                return out;
            },
        }
    }
}

/// The index of the first candidate that exists, from `i` on.
pub open spec fn first_existing(exists: Seq<bool>, i: int) -> Option<int>
    decreases exists.len() - i,
{
    if i < 0 || i >= exists.len() {
        None
    } else if exists[i] {
        Some(i)
    } else {
        first_existing(exists, i + 1)
    }
}

/// The project config chosen: the override path when one is given, else the
/// first candidate that exists (`exists[i]` says whether candidate `i`
/// does; a candidate without a flag counts as missing), else none.
pub open spec fn chosen_config(
    override_path: Option<Seq<char>>,
    candidates: Seq<Seq<char>>,
    exists: Seq<bool>,
) -> Option<Seq<char>> {
    match override_path {
        Some(p) => Some(p),
        None => match first_existing(exists.take(if exists.len() <= candidates.len() {
            exists.len() as int
        } else {
            candidates.len() as int
        }), 0) {
            Some(i) => Some(candidates[i]),
            None => None,
        },
    }
}

/// Choose the project config, as `chosen_config` says.
pub fn choose_config(override_path: Option<&str>, candidates: &Vec<String>, exists: &Vec<bool>) -> (r: Option<String>)
    ensures
        ({
            let chosen = chosen_config(
                match override_path {
                    Some(p) => Some(p@),
                    None => None,
                },
                candidates@.map_values(|c: String| c@),
                exists@,
            );
            match r {
                Some(c) => chosen == Some(c@),
                None => chosen is None,
            }
        }),
{
    if let Some(p) = override_path {
        return Some(p.to_owned());
    }
    let ghost cv = candidates@.map_values(|c: String| c@);
    let n: usize = if exists.len() <= candidates.len() { exists.len() } else { candidates.len() };
    let ghost ex = exists@.take(n as int);
    assert(cv.len() == candidates@.len());
    assert(ex == exists@.take(if exists@.len() <= cv.len() { exists@.len() as int } else { cv.len() as int }));
    let mut i: usize = 0;
    while i < n
        invariant
            i <= n,
            n <= exists@.len(),
            n <= candidates@.len(),
            ex == exists@.take(n as int),
            override_path is None,
            ex == exists@.take(if exists@.len() <= cv.len() { exists@.len() as int } else { cv.len() as int }),
            cv == candidates@.map_values(|c: String| c@),
            first_existing(ex, 0) == first_existing(ex, i as int),
        decreases n - i,
    {
        if exists[i] {
            assert(ex[i as int]);
            let c = candidates[i].clone();
            assert(c@ == cv[i as int]);
            return Some(c);
        }
        assert(!ex[i as int]);
        i = i + 1;
    }
    None
}

} // verus!
