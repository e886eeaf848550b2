use jjwt::llm::{llm_answer, render_prompt, summary_prompt, LlmPromptVars, DEFAULT_TEMPLATE};
use jjwt::types::{CommitGenerationConfig, CoreError};

fn default_cfg() -> CommitGenerationConfig {
    CommitGenerationConfig { command: None, template: None, template_append: None }
}

#[test]
fn render_default_template() {
    let cfg = default_cfg();
    let vars = LlmPromptVars {
        jj_diff: "diff content".into(),
        jj_diff_stat: "1 file changed".into(),
        branch: "feat-login".into(),
        repo: "my-app".into(),
        recent_commits: String::new(),
    };

    let result = render_prompt(&cfg, &vars).unwrap();

    assert!(result.contains("feat-login"));
    assert!(result.contains("my-app"));
    assert!(result.contains("diff content"));
    assert!(result.contains("1 file changed"));
}

#[test]
fn render_custom_template() {
    let cfg = CommitGenerationConfig {
        command: None,
        template: Some("Branch: {{ branch }}\nDiff: {{ jj_diff }}".into()),
        template_append: None,
    };
    let vars = LlmPromptVars {
        jj_diff: "some diff".into(),
        jj_diff_stat: String::new(),
        branch: "fix-bug".into(),
        repo: String::new(),
        recent_commits: String::new(),
    };

    let result = render_prompt(&cfg, &vars).unwrap();

    assert_eq!(result, "Branch: fix-bug\nDiff: some diff");
}

#[test]
fn render_template_append() {
    let cfg = CommitGenerationConfig {
        command: None,
        template: None,
        template_append: Some("Always mention the ticket number.".into()),
    };
    let vars = LlmPromptVars {
        jj_diff: "diff".into(),
        jj_diff_stat: "stat".into(),
        branch: "b".into(),
        repo: "r".into(),
        recent_commits: String::new(),
    };

    let result = render_prompt(&cfg, &vars).unwrap();

    assert!(result.contains("Always mention the ticket number."));
    assert!(result.contains("Write a concise commit message"));
}

#[test]
fn prompt_undefined_variable_renders_empty() {
    let cfg = CommitGenerationConfig {
        command: None,
        template: Some("[{{ guidance }}]{{ repo }}".into()),
        template_append: None,
    };
    let vars = LlmPromptVars {
        jj_diff: String::new(),
        jj_diff_stat: String::new(),
        branch: String::new(),
        repo: "r".into(),
        recent_commits: String::new(),
    };

    assert_eq!(render_prompt(&cfg, &vars).unwrap(), "[]r");
}

#[test]
fn prompt_recent_commits_section_only_when_present() {
    let vars = LlmPromptVars {
        jj_diff: "d".into(),
        jj_diff_stat: "s".into(),
        branch: "b".into(),
        repo: "r".into(),
        recent_commits: String::new(),
    };
    let without = render_prompt(&default_cfg(), &vars).unwrap();
    assert!(!without.contains("Recent commits"));
    let vars = LlmPromptVars { recent_commits: "fix: thing".into(), ..vars };
    let with = render_prompt(&default_cfg(), &vars).unwrap();
    assert!(with.contains("Recent commits (for style reference):\nfix: thing"));
}

#[test]
fn prompt_template_syntax_error() {
    let cfg = CommitGenerationConfig { command: None, template: Some("{{ branch".into()), template_append: None };
    let vars = LlmPromptVars {
        jj_diff: String::new(),
        jj_diff_stat: String::new(),
        branch: String::new(),
        repo: String::new(),
        recent_commits: String::new(),
    };
    assert!(matches!(render_prompt(&cfg, &vars), Err(CoreError::TemplateRender(_))));
}

#[test]
fn default_template_starts_with_instruction() {
    assert!(DEFAULT_TEMPLATE.starts_with("Write a concise commit message for the following changes.\n\nBranch: {{ branch }}"));
    assert!(DEFAULT_TEMPLATE.ends_with("- Output ONLY the commit message, nothing else"));
}

#[test]
fn summary_prompt_layout() {
    assert_eq!(
        summary_prompt("Add login", "1 file changed"),
        "Summarize this branch's work in ONE short phrase (max 50 chars, no period).\n\nCommit message: Add login\n\nDiff stat:\n1 file changed"
    );
}

#[test]
fn llm_answer_trims_and_rejects_empty() {
    assert_eq!(llm_answer("  hello world\n"), Some("hello world".to_string()));
    assert_eq!(llm_answer(" \n\t "), None);
    assert_eq!(llm_answer(""), None);
}
