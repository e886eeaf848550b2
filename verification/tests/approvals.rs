use jjwt::approvals::{answer_approves, approval_step, approved_in, hash_command, record_approval, ApprovalStep, ApprovalsFile};

#[test]
fn hash_is_deterministic() {
    let a = hash_command("npm install");
    let b = hash_command("npm install");

    assert_eq!(a, b);
    assert!(a.starts_with("sha256:"));
}

#[test]
fn hash_differs_for_different_commands() {
    let a = hash_command("npm install");
    let b = hash_command("make db-start");

    assert_ne!(a, b);
}

#[test]
fn hash_is_the_hex_sha256() {
    assert_eq!(
        hash_command("npm install"),
        "sha256:3a2dc0ae21eb56d78a0eb6bbd0f4512da04f9f94f6ee6c6a338c3e4cb1a8ff91"
    );
    assert_eq!(
        hash_command(""),
        "sha256:e3b0c44298fc1c149afbf4c8996fb92427ae41e4649b934ca495991b7852b855"
    );
}

#[test]
fn is_approved_returns_false_for_missing_file() {
    let file = ApprovalsFile::default();

    assert!(!file.projects.contains_key("any"));
}

#[test]
fn recorded_command_is_approved_once() {
    let mut file = ApprovalsFile::default();

    assert!(!approved_in(&file, "github.com/o/r", "npm install"));

    record_approval(&mut file, "github.com/o/r", "npm install");
    record_approval(&mut file, "github.com/o/r", "npm install");

    assert!(approved_in(&file, "github.com/o/r", "npm install"));
    assert!(!approved_in(&file, "github.com/o/other", "npm install"));
    assert_eq!(file.projects.get("github.com/o/r").unwrap().approved_commands.len(), 1);
}

#[test]
fn approval_decision() {
    assert!(matches!(approval_step(true, Some("r"), false, false, "h"), ApprovalStep::Allowed));
    assert!(matches!(approval_step(false, None, false, false, "h"), ApprovalStep::Refused(_)));
    assert!(matches!(approval_step(false, None, true, false, "h"), ApprovalStep::Refused(_)));
    assert!(matches!(approval_step(false, None, false, true, "h"), ApprovalStep::Ask));
    assert!(matches!(approval_step(true, None, false, false, "h"), ApprovalStep::Allowed));
    assert!(matches!(approval_step(false, Some("r"), true, false, "h"), ApprovalStep::Allowed));
    assert!(matches!(approval_step(false, Some("r"), false, true, "h"), ApprovalStep::Ask));
    match approval_step(false, Some("r"), false, false, "h") {
        ApprovalStep::Refused(m) => assert_eq!(
            m,
            "project hook 'h' requires approval but session is not interactive (run interactively to approve, or pre-approve the command)"
        ),
        _ => panic!("expected a refusal"),
    }
}

#[test]
fn answers() {
    assert!(answer_approves("y\n"));
    assert!(answer_approves("  YES "));
    assert!(!answer_approves("no"));
    assert!(!answer_approves(""));
}
