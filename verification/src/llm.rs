//! Prompts for the external command that writes commit messages and
//! summaries, and the cleaning of what it answers.
use vstd::prelude::*;
use crate::template::{bview, lenient_render, template_render, Bindings, TemplateValue, TemplateView};
use crate::text::{chars_of, concat, string_of, trim, trim_chars};
use crate::types::{CommitGenerationConfig, CoreError};

verus! {

/// Variables available in the commit-message prompt template.
pub struct LlmPromptVars {
    /// Full diff output of the working-copy commit.
    pub jj_diff: String,
    /// Summary statistics of that diff.
    pub jj_diff_stat: String,
    /// Current branch (workspace) name.
    pub branch: String,
    /// Repository name.
    pub repo: String,
    /// Recent commit messages, for style.
    pub recent_commits: String,
}

/// The built-in prompt template for commit messages.
pub const DEFAULT_TEMPLATE: &'static str = "Write a concise commit message for the following changes.\n\nBranch: {{ branch }}\nRepository: {{ repo }}\n\nDiff stat:\n{{ jj_diff_stat }}\n\nFull diff:\n{{ jj_diff }}\n{% if recent_commits %}\nRecent commits (for style reference):\n{{ recent_commits }}\n{% endif %}\n{% if guidance %}\n{{ guidance }}\n{% endif %}\nRules:\n- First line: imperative mood, max 72 characters, no period\n- If needed, add a blank line then bullet-point details\n- Focus on WHY, not WHAT (the diff shows what)\n- Output ONLY the commit message, nothing else";

/// The template a configuration asks for: its own template when set; else
/// the built-in one, followed by a blank line and the configured addition
/// when there is one.
pub open spec fn prompt_source(cfg: CommitGenerationConfig) -> Seq<char> {
    match cfg.template {
        Some(t) => t@,
        None => match cfg.template_append {
            Some(a) => DEFAULT_TEMPLATE@ + seq!['\n', '\n'] + a@,
            None => DEFAULT_TEMPLATE@,
        },
    }
}

/// The variables of a prompt, in the order they are handed over.
pub open spec fn prompt_bindings(v: LlmPromptVars) -> Bindings {
    seq![
        ("jj_diff"@, TemplateView::Text(v.jj_diff@)),
        ("jj_diff_stat"@, TemplateView::Text(v.jj_diff_stat@)),
        ("branch"@, TemplateView::Text(v.branch@)),
        ("repo"@, TemplateView::Text(v.repo@)),
        ("recent_commits"@, TemplateView::Text(v.recent_commits@)),
    ]
}

fn prompt_template(cfg: &CommitGenerationConfig) -> (r: String)
    ensures
        r@ == prompt_source(*cfg),
{
    match &cfg.template {
        Some(t) => t.clone(),
        None => {
            let base = DEFAULT_TEMPLATE.to_owned();
            match &cfg.template_append {
                Some(a) => {
                    proof {
                        reveal_strlit("\n\n");
                    }
                    let with_gap = concat(base.as_str(), "\n\n");
                    concat(with_gap.as_str(), a.as_str())
                },
                None => base,
            }
        },
    }
}

/// Render the commit-message prompt: the configured template (see
/// `prompt_source`) with the five prompt variables, undefined variables
/// rendering as empty.
pub fn render_prompt(cfg: &CommitGenerationConfig, vars: &LlmPromptVars) -> (r: Result<String, CoreError>)
    ensures
        match r {
            Ok(s) => template_render(false, prompt_source(*cfg), prompt_bindings(*vars)) == Ok::<
                Seq<char>,
                Seq<char>,
            >(s@),
            Err(e) => e matches CoreError::TemplateRender(m) && template_render(
                false,
                prompt_source(*cfg),
                prompt_bindings(*vars),
            ) == Err::<Seq<char>, Seq<char>>(m@),
        },
{
    let source = prompt_template(cfg);
    let mut data: Vec<(String, TemplateValue)> = Vec::new();
    data.push(("jj_diff".to_owned(), TemplateValue::Text(vars.jj_diff.clone())));
    data.push(("jj_diff_stat".to_owned(), TemplateValue::Text(vars.jj_diff_stat.clone())));
    data.push(("branch".to_owned(), TemplateValue::Text(vars.branch.clone())));
    data.push(("repo".to_owned(), TemplateValue::Text(vars.repo.clone())));
    data.push(("recent_commits".to_owned(), TemplateValue::Text(vars.recent_commits.clone())));
    assert(bview(data@) =~= prompt_bindings(*vars));
    match lenient_render(source.as_str(), &data) {
        Ok(s) => Ok(s),
        Err(e) => Err(CoreError::TemplateRender(e)),
    }
}

/// The prompt asking for a one-phrase summary of a branch.
pub open spec fn summary_prompt_text(message: Seq<char>, diff_stat: Seq<char>) -> Seq<char> {
    "Summarize this branch's work in ONE short phrase (max 50 chars, no period).\n\nCommit message: "@
        + message + "\n\nDiff stat:\n"@ + diff_stat
}

/// Build the summary prompt from a commit message and a diff stat.
pub fn summary_prompt(message: &str, diff_stat: &str) -> (r: String)
    ensures
        r@ == summary_prompt_text(message@, diff_stat@),
{
    let head = concat(
        "Summarize this branch's work in ONE short phrase (max 50 chars, no period).\n\nCommit message: ",
        message,
    );
    let mid = concat(head.as_str(), "\n\nDiff stat:\n");
    concat(mid.as_str(), diff_stat)
}

/// What the command's standard output gives: its text with surrounding
/// white space removed, or nothing when that is empty.
pub open spec fn answer_of(out: Seq<char>) -> Option<Seq<char>> {
    let t = trim(out);
    if t.len() == 0 {
        None
    } else {
        Some(t)
    }
}

/// Clean what the command printed: trimmed, `None` when nothing is left.
pub fn llm_answer(stdout: &str) -> (r: Option<String>)
    ensures
        r matches Some(t) ==> answer_of(stdout@) == Some(t@),
        r is None ==> answer_of(stdout@) is None,
{
    let t = trim_chars(&chars_of(stdout));
    if t.len() == 0 {
        None
    } else {
        Some(string_of(t.as_slice()))
    }
}

} // verus!
