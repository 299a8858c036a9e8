use flag_submitter::{classify, contains_text, submission_form, Flag, FlagStatus, Outcome, Reply};

fn answered(status: u16, body: &str) -> Reply {
    Reply::Answered { status, body: Some(String::from(body)) }
}

#[test]
fn success_without_marker_is_confirmed() {
    assert_eq!(classify(&answered(200, "accepted")), Outcome::Confirmed);
    assert_eq!(classify(&answered(204, "")), Outcome::Confirmed);
    assert_eq!(classify(&answered(299, "ok")), Outcome::Confirmed);
}

#[test]
fn success_with_marker_is_rejected() {
    assert_eq!(classify(&answered(200, "invalid")), Outcome::Rejected);
    assert_eq!(classify(&answered(201, "flag is invalid!")), Outcome::Rejected);
    assert_eq!(classify(&answered(200, "{\"error\":\"invalid flag\"}")), Outcome::Rejected);
}

#[test]
fn marker_match_is_exact() {
    assert_eq!(classify(&answered(200, "Invalid")), Outcome::Confirmed);
    assert_eq!(classify(&answered(200, "invali")), Outcome::Confirmed);
    assert_eq!(classify(&answered(200, "in valid")), Outcome::Confirmed);
}

#[test]
fn failure_status_is_undetermined() {
    assert_eq!(classify(&answered(500, "accepted")), Outcome::Undetermined);
    assert_eq!(classify(&answered(404, "invalid")), Outcome::Undetermined);
    assert_eq!(classify(&answered(199, "ok")), Outcome::Undetermined);
    assert_eq!(classify(&answered(300, "ok")), Outcome::Undetermined);
    assert_eq!(classify(&answered(429, "slow down")), Outcome::Undetermined);
}

#[test]
fn unreadable_body_is_undetermined() {
    assert_eq!(classify(&Reply::Answered { status: 200, body: None }), Outcome::Undetermined);
}

#[test]
fn transport_failure_is_undetermined() {
    assert_eq!(classify(&Reply::Unreachable), Outcome::Undetermined);
}

#[test]
fn substring_search() {
    assert!(contains_text("abcabd", "abd"));
    assert!(contains_text("abc", ""));
    assert!(contains_text("", ""));
    assert!(!contains_text("", "a"));
    assert!(!contains_text("ab", "abc"));
    assert!(contains_text("héllo wörld", "wö"));
    assert!(!contains_text("aaa", "aaaa"));
}

#[test]
fn form_carries_token_then_flag() {
    let f = Flag { id: 3, flag: String::from("FLAG{xyz}"), group: 1, status: FlagStatus::Unsent };
    let form = submission_form("SECRET-REDACTED", &f);
    assert_eq!(form, [("team_token", "SECRET-REDACTED"), ("flag", "FLAG{xyz}")]);
}
