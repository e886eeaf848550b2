//! Approval of project hook commands: commands are recorded by the
//! SHA-256 of their rendered text, per repository identity.
use vstd::prelude::*;
use crate::filters::codename::{sha256, sha256_digest};
use crate::strmap::StrMap;
use crate::text::{chars_of, push_str, string_of, str_eq, trim_chars};
use vstd::utf8::encode_utf8;

verus! {

/// Lowercase hexadecimal digit of `d` (0 to 15).
pub open spec fn hex_digit(d: int) -> char {
    if d < 10 {
        (('0' as int) + d) as char
    } else {
        (('a' as int) + d - 10) as char
    }
}

/// Bytes as lowercase hexadecimal, two digits each.
pub open spec fn hex_bytes(b: Seq<u8>) -> Seq<char>
    decreases b.len(),
{
    if b.len() == 0 {
        seq![]
    } else {
        hex_bytes(b.drop_last()) + seq![hex_digit((b.last() / 16) as int), hex_digit((b.last() % 16) as int)]
    }
}

/// The record of an approved command: `sha256:` and the hexadecimal
/// SHA-256 of its UTF-8 text.
pub open spec fn command_hash(cmd: Seq<char>) -> Seq<char> {
    "sha256:"@ + hex_bytes(sha256(encode_utf8(cmd)))
}

fn hex_char(d: u8) -> (r: char)
    requires
        d < 16,
    ensures
        r == hex_digit(d as int),
{
    match d {
        0 => '0',
        1 => '1',
        2 => '2',
        3 => '3',
        4 => '4',
        5 => '5',
        6 => '6',
        7 => '7',
        8 => '8',
        9 => '9',
        10 => 'a',
        11 => 'b',
        12 => 'c',
        13 => 'd',
        14 => 'e',
        _ => 'f',
    }
}

/// Produce a deterministic SHA-256 hash string for a rendered command.
pub fn hash_command(rendered_cmd: &str) -> (r: String)
    ensures
        r@ == command_hash(rendered_cmd@),
{
    let digest = sha256_digest(rendered_cmd.as_bytes());
    let mut out: Vec<char> = Vec::new();
    push_str(&mut out, "sha256:");
    let ghost head = out@;
    let mut i: usize = 0;
    while i < digest.len()
        invariant
            i <= digest@.len(),
            out@ == head + hex_bytes(digest@.take(i as int)),
        decreases digest@.len() - i,
    {
        let b = digest[i];
        out.push(hex_char(b / 16));
        out.push(hex_char(b % 16));
        assert(digest@.take(i + 1).drop_last() =~= digest@.take(i as int));
        assert(out@ =~= head + hex_bytes(digest@.take(i + 1)));
        i = i + 1;
    }
    assert(digest@.take(digest@.len() as int) =~= digest@);
    string_of(&out)
}

/// Approved commands of one project.
pub struct ProjectApprovals {
    /// Hashes of approved rendered hook commands.
    pub approved_commands: Vec<String>,
}

/// The approvals store: approved commands per repository identity.
pub struct ApprovalsFile {
    /// Per-project approval records keyed by repository identity.
    pub projects: StrMap<ProjectApprovals>,
}

/// The hashes recorded for a project, as text.
pub open spec fn recorded(file: &ApprovalsFile, repo_id: Seq<char>) -> Seq<Seq<char>> {
    if file.projects@.contains_key(repo_id) {
        file.projects@[repo_id].approved_commands@.map_values(|h: String| h@)
    } else {
        seq![]
    }
}

impl ApprovalsFile {
    /// No approvals.
    pub fn default() -> (r: Self)
        ensures
            r.projects@ == Map::<Seq<char>, ProjectApprovals>::empty(),
    {
        ApprovalsFile { projects: StrMap::new() }
    }
}

fn holds(list: &Vec<String>, h: &str) -> (r: bool)
    ensures
        r == list@.map_values(|x: String| x@).contains(h@),
{
    let ghost lv = list@.map_values(|x: String| x@);
    let mut i: usize = 0;
    while i < list.len()
        invariant
            i <= list@.len(),
            lv == list@.map_values(|x: String| x@),
            forall|j: int| 0 <= j < i ==> lv[j] != h@,
        decreases list@.len() - i,
    {
        if str_eq(list[i].as_str(), h) {
            assert(lv[i as int] == h@);
            return true;
        }
        i = i + 1;
    }
    false
}

/// Whether `rendered_cmd` is approved for `repo_id` in `file`.
pub fn approved_in(file: &ApprovalsFile, repo_id: &str, rendered_cmd: &str) -> (r: bool)
    ensures
        r == recorded(file, repo_id@).contains(command_hash(rendered_cmd@)),
{
    let hash = hash_command(rendered_cmd);
    match file.projects.get(repo_id) {
        Some(pa) => holds(&pa.approved_commands, hash.as_str()),
        None => false,
    }
}

/// Record `rendered_cmd` as approved for `repo_id`: its hash is added to
/// the project's list unless it is there already; other projects are left
/// alone.
pub fn record_approval(file: &mut ApprovalsFile, repo_id: &str, rendered_cmd: &str)
    ensures
        recorded(final(file), repo_id@) == if recorded(old(file), repo_id@).contains(command_hash(rendered_cmd@)) {
            recorded(old(file), repo_id@)
        } else {
            recorded(old(file), repo_id@).push(command_hash(rendered_cmd@))
        },
        forall|other: Seq<char>| other != repo_id@ ==> #[trigger] recorded(final(file), other) == recorded(old(file), other),
{
    let hash = hash_command(rendered_cmd);
    let mut list = match file.projects.remove(repo_id) {
        Some(pa) => pa.approved_commands,
        None => Vec::new(),
    };
    let ghost before = list@.map_values(|x: String| x@);
    assert(before == recorded(old(file), repo_id@));
    if !holds(&list, hash.as_str()) {
        list.push(hash);
        assert(list@.map_values(|x: String| x@) =~= before.push(command_hash(rendered_cmd@)));
    }
    file.projects.insert(repo_id.to_owned(), ProjectApprovals { approved_commands: list });
}

/// Reading back a write: once a command is recorded for a project, it is
/// approved there.
pub proof fn law_recorded_is_approved(before: Seq<Seq<char>>, after: Seq<Seq<char>>, h: Seq<char>)
    requires
        after == if before.contains(h) { before } else { before.push(h) },
    ensures
        after.contains(h),
{
    if !before.contains(h) {
        assert(after[before.len() as int] == h);
    }
}

/// What to do about a project hook before it runs.
pub enum ApprovalStep {
    /// Run it.
    Allowed,
    /// Ask the user.
    Ask,
    /// Refuse it, with this message.
    Refused(String),
}

/// Whether a project hook may run: always when project hooks are trusted,
/// when its command is approved for the repository's identity, or after
/// asking the user in an interactive session; refused otherwise. A
/// repository without an identity has no recorded approvals, so its
/// project hooks are asked about or refused.
pub open spec fn approval_step_of(trusted: bool, has_repo_id: bool, approved: bool, interactive: bool) -> int {
    if trusted || (has_repo_id && approved) {
        0
    } else if interactive {
        1
    } else {
        2
    }
}

/// A project hook runs without asking only when project hooks are trusted
/// or its command is approved for the repository's identity.
pub proof fn law_project_hook_needs_approval(trusted: bool, has_repo_id: bool, approved: bool, interactive: bool)
    requires
        !trusted,
        !(has_repo_id && approved),
    ensures
        approval_step_of(trusted, has_repo_id, approved, interactive) != 0,
        interactive <==> approval_step_of(trusted, has_repo_id, approved, interactive) == 1,
{
}

/// Decide about a project hook: `trusted` says the environment trusts
/// project hooks, `repo_id` is the repository identity, `approved` whether
/// the command is recorded as approved.
pub fn approval_step(trusted: bool, repo_id: Option<&str>, approved: bool, interactive: bool, hook_name: &str) -> (r: ApprovalStep)
    ensures
        match r {
            ApprovalStep::Allowed => approval_step_of(trusted, repo_id.is_some(), approved, interactive) == 0,
            ApprovalStep::Ask => approval_step_of(trusted, repo_id.is_some(), approved, interactive) == 1,
            ApprovalStep::Refused(m) => approval_step_of(trusted, repo_id.is_some(), approved, interactive) == 2
                && m@ == "project hook '"@ + hook_name@
                + "' requires approval but session is not interactive (run interactively to approve, or pre-approve the command)"@,
        },
{
    if trusted || (repo_id.is_some() && approved) {
        ApprovalStep::Allowed
    } else if interactive {
        ApprovalStep::Ask
    } else {
        let a = crate::text::concat("project hook '", hook_name);
        ApprovalStep::Refused(crate::text::concat(
            a.as_str(),
            "' requires approval but session is not interactive (run interactively to approve, or pre-approve the command)",
        ))
    }
}

/// ASCII lowercase of a character.
pub open spec fn lower(c: char) -> char {
    if 'A' <= c <= 'Z' { ((c as int) + 32) as char } else { c }
}

/// Whether the user's answer approves: `y` or `yes` in any case, with
/// surrounding white space ignored.
pub open spec fn approves(line: Seq<char>) -> bool {
    let t = crate::text::trim(line);
    t.map_values(|c: char| lower(c)) == "y"@ || t.map_values(|c: char| lower(c)) == "yes"@
}

fn lower_char(c: char) -> (r: char)
    ensures
        r == lower(c),
{
    if 'A' <= c && c <= 'Z' {
        ((c as u32) + 32) as u8 as char
    } else {
        c
    }
}

/// Read the user's answer to the approval prompt.
pub fn answer_approves(line: &str) -> (r: bool)
    ensures
        r == approves(line@),
{
    let t = trim_chars(&chars_of(line));
    let mut low: Vec<char> = Vec::new();
    let mut i: usize = 0;
    while i < t.len()
        invariant
            i <= t@.len(),
            low@ == t@.take(i as int).map_values(|c: char| lower(c)),
        decreases t@.len() - i,
    {
        low.push(lower_char(t[i]));
        i = i + 1;
        assert(low@ =~= t@.take(i as int).map_values(|c: char| lower(c)));
    }
    assert(t@.take(t@.len() as int) =~= t@);
    let s = string_of(&low);
    str_eq(s.as_str(), "y") || str_eq(s.as_str(), "yes")
}

} // verus!
