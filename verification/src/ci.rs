//! CI status of bookmarks, from the pull requests of GitHub or the merge
//! requests of GitLab.
use vstd::prelude::*;
use crate::text::str_eq;
use crate::types::CiStatus;

verus! {

/// One check of a GitHub pull request: its conclusion and status, when
/// given.
pub struct GithubCheck {
    pub conclusion: Option<String>,
    pub status: Option<String>,
}

/// An open GitHub pull request: its head branch and its check rollup.
pub struct GithubPr {
    pub head_ref: String,
    pub checks: Option<Vec<GithubCheck>>,
}

/// An open GitLab merge request: its source branch and, when it has a head
/// pipeline, that pipeline's status.
pub struct GitlabMr {
    pub source_branch: String,
    pub pipeline: Option<Option<String>>,
}

/// A text field, empty when absent.
pub open spec fn or_empty(s: Option<String>) -> Seq<char> {
    match s {
        Some(t) => t@,
        None => seq![],
    }
}

/// A check failed: its conclusion is `FAILURE` or `ERROR`.
pub open spec fn check_failed(c: GithubCheck) -> bool {
    or_empty(c.conclusion) == "FAILURE"@ || or_empty(c.conclusion) == "ERROR"@
}

/// A check is still running: queued, in progress or pending, or without a
/// conclusion.
pub open spec fn check_pending(c: GithubCheck) -> bool {
    let s = or_empty(c.status);
    s == "IN_PROGRESS"@ || s == "QUEUED"@ || s == "PENDING"@ || or_empty(c.conclusion).len() == 0
}

/// The status of a set of checks: failed if any failed, else pending if
/// any is pending, else passed.
pub open spec fn checks_status(cs: Seq<GithubCheck>) -> CiStatus {
    if exists|i: int| 0 <= i < cs.len() && check_failed(#[trigger] cs[i]) {
        CiStatus::Fail
    } else if exists|i: int| 0 <= i < cs.len() && check_pending(#[trigger] cs[i]) {
        CiStatus::Pending
    } else {
        CiStatus::Pass
    }
}

fn text_or_empty(s: &Option<String>) -> (r: &str)
    ensures
        r@ == or_empty(*s),
{
    proof {
        reveal_strlit("");
        assert(""@ =~= Seq::<char>::empty());
    }
    match s {
        Some(t) => t.as_str(),
        None => "",
    }
}

/// Aggregate the checks of a pull request into one status.
pub fn aggregate_github_checks(checks: &Vec<GithubCheck>) -> (r: CiStatus)
    ensures
        r == checks_status(checks@),
{
    proof {
        reveal_strlit("");
    }
    let mut has_pending = false;
    let mut i: usize = 0;
    while i < checks.len()
        invariant
            i <= checks@.len(),
            forall|j: int| 0 <= j < i ==> !check_failed(#[trigger] checks@[j]),
            has_pending == exists|j: int| 0 <= j < i && check_pending(#[trigger] checks@[j]),
        decreases checks@.len() - i,
    {
        let conclusion = text_or_empty(&checks[i].conclusion);
        let status = text_or_empty(&checks[i].status);
        if str_eq(conclusion, "FAILURE") || str_eq(conclusion, "ERROR") {
            assert(check_failed(checks@[i as int]));
            return CiStatus::Fail;
        }
        if str_eq(status, "IN_PROGRESS") || str_eq(status, "QUEUED") || str_eq(status, "PENDING")
            || conclusion.unicode_len() == 0 {
            assert(check_pending(checks@[i as int]));
            has_pending = true;
        } else {
            assert(!check_pending(checks@[i as int]));
        }
        i = i + 1;
    }
    if has_pending {
        CiStatus::Pending
    } else {
        CiStatus::Pass
    }
}

/// The status of a pull request: none without checks.
pub open spec fn pr_status(pr: GithubPr) -> CiStatus {
    match pr.checks {
        None => CiStatus::Absent,
        Some(cs) => if cs@.len() == 0 { CiStatus::Absent } else { checks_status(cs@) },
    }
}

/// The status of a pull request: none without checks.
pub fn github_pr_status(pr: &GithubPr) -> (r: CiStatus)
    ensures
        r == pr_status(*pr),
{
    match &pr.checks {
        None => CiStatus::Absent,
        Some(cs) => if cs.len() == 0 {
            CiStatus::Absent
        } else {
            aggregate_github_checks(cs)
        },
    }
}

/// The status of a merge request from its head pipeline's status.
pub open spec fn mr_status(mr: GitlabMr) -> CiStatus {
    match mr.pipeline {
        None => CiStatus::Absent,
        Some(s) => {
            let t = or_empty(s);
            if t == "success"@ {
                CiStatus::Pass
            } else if t == "failed"@ {
                CiStatus::Fail
            } else if t == "running"@ || t == "pending"@ || t == "created"@ {
                CiStatus::Pending
            } else {
                CiStatus::Absent
            }
        },
    }
}

/// The status of a merge request from its head pipeline's status.
pub fn gitlab_mr_status(mr: &GitlabMr) -> (r: CiStatus)
    ensures
        r == mr_status(*mr),
{
    match &mr.pipeline {
        None => CiStatus::Absent,
        Some(s) => {
            let t = text_or_empty(s);
            if str_eq(t, "success") {
                CiStatus::Pass
            } else if str_eq(t, "failed") {
                CiStatus::Fail
            } else if str_eq(t, "running") || str_eq(t, "pending") || str_eq(t, "created") {
                CiStatus::Pending
            } else {
                CiStatus::Absent
            }
        },
    }
}

/// The branch statuses of the pull requests, in order.
pub fn github_statuses(prs: &Vec<GithubPr>) -> (r: Vec<(String, CiStatus)>)
    ensures
        r@.len() == prs@.len(),
        forall|i: int| 0 <= i < prs@.len() ==> #[trigger] r@[i].0@ == prs@[i].head_ref@ && r@[i].1 == pr_status(prs@[i]),
{
    let mut out: Vec<(String, CiStatus)> = Vec::new();
    let mut i: usize = 0;
    while i < prs.len()
        invariant
            i <= prs@.len(),
            out@.len() == i,
            forall|j: int| #![trigger out@[j]] 0 <= j < i ==> out@[j].0@ == prs@[j].head_ref@ && out@[j].1 == pr_status(prs@[j]),
        decreases prs@.len() - i,
    {
        let st = github_pr_status(&prs[i]);
        let ghost prev = out@;
        out.push((prs[i].head_ref.clone(), st));
        assert(forall|j: int| 0 <= j < i ==> out@[j] == prev[j]);
        assert(out@[i as int].0@ == prs@[i as int].head_ref@);
        assert(out@[i as int].1 == pr_status(prs@[i as int]));
        i = i + 1;
    }
    out
}

/// The branch statuses of the merge requests, in order.
pub fn gitlab_statuses(mrs: &Vec<GitlabMr>) -> (r: Vec<(String, CiStatus)>)
    ensures
        r@.len() == mrs@.len(),
        forall|i: int| 0 <= i < mrs@.len() ==> #[trigger] r@[i].0@ == mrs@[i].source_branch@ && r@[i].1 == mr_status(mrs@[i]),
{
    let mut out: Vec<(String, CiStatus)> = Vec::new();
    let mut i: usize = 0;
    while i < mrs.len()
        invariant
            i <= mrs@.len(),
            out@.len() == i,
            forall|j: int| #![trigger out@[j]] 0 <= j < i ==> out@[j].0@ == mrs@[j].source_branch@ && out@[j].1 == mr_status(mrs@[j]),
        decreases mrs@.len() - i,
    {
        out.push((mrs[i].source_branch.clone(), gitlab_mr_status(&mrs[i])));
        i = i + 1;
    }
    out
}

/// The status recorded for `name` among the first `n` entries: the last
/// one recorded wins; none when it has none.
pub open spec fn status_of(st: Seq<(String, CiStatus)>, name: Seq<char>, n: int) -> CiStatus
    decreases n,
{
    if n <= 0 {
        CiStatus::Absent
    } else if st[n - 1].0@ == name {
        st[n - 1].1
    } else {
        status_of(st, name, n - 1)
    }
}

fn lookup_status(st: &Vec<(String, CiStatus)>, name: &str) -> (r: CiStatus)
    ensures
        r == status_of(st@, name@, st@.len() as int),
{
    let mut i: usize = st.len();
    while i > 0
        invariant
            i <= st@.len(),
            status_of(st@, name@, st@.len() as int) == status_of(st@, name@, i as int),
        decreases i,
    {
        if str_eq(st[i - 1].0.as_str(), name) {
            return st[i - 1].1;
        }
        i = i - 1;
    }
    CiStatus::Absent
}

/// The CI status of each bookmark, from the statuses of the first forge
/// that answered (GitHub before GitLab); none for every bookmark when no
/// forge answered.
pub fn ci_statuses(bookmarks: &Vec<String>, answered: Option<Vec<(String, CiStatus)>>) -> (r: Vec<(String, CiStatus)>)
    ensures
        r@.len() == bookmarks@.len(),
        forall|i: int| 0 <= i < bookmarks@.len() ==> #[trigger] r@[i].0@ == bookmarks@[i]@ && r@[i].1 == match answered {
            Some(st) => status_of(st@, bookmarks@[i]@, st@.len() as int),
            None => CiStatus::Absent,
        },
{
    let mut out: Vec<(String, CiStatus)> = Vec::new();
    let mut i: usize = 0;
    while i < bookmarks.len()
        invariant
            i <= bookmarks@.len(),
            out@.len() == i,
            forall|j: int| #![trigger out@[j]] 0 <= j < i ==> out@[j].0@ == bookmarks@[j]@ && out@[j].1 == match answered {
                Some(st) => status_of(st@, bookmarks@[j]@, st@.len() as int),
                None => CiStatus::Absent,
            },
        decreases bookmarks@.len() - i,
    {
        let s = match &answered {
            Some(st) => lookup_status(st, bookmarks[i].as_str()),
            None => CiStatus::Absent,
        };
        let ghost prev = out@;
        out.push((bookmarks[i].clone(), s));
        assert(forall|j: int| 0 <= j < i ==> out@[j] == prev[j]);
        assert(out@[i as int].0@ == bookmarks@[i as int]@);
        assert(out@[i as int].1 == s);
        i = i + 1;
    }
    out
}

} // verus!
