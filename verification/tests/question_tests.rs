use lightarchitects_webshell::question::{
    check_submission, validate_answers, QuestionItem, QuestionOption, Refusal,
};

fn yes_no(multi_select: bool) -> QuestionItem {
    QuestionItem {
        question: "Proceed?".to_string(),
        header: "Confirm".to_string(),
        options: vec![
            QuestionOption { label: "Yes".to_string(), description: "go ahead".to_string() },
            QuestionOption { label: "No".to_string(), description: "stop".to_string() },
        ],
        multi_select,
    }
}

fn refusal(status: u16, message: &str) -> Result<(), Refusal> {
    Err(Refusal { status, message: message.to_string() })
}

#[test]
fn submission_without_questions_is_a_bad_request() {
    assert_eq!(check_submission(0, 0), refusal(400, "questions must not be empty"));
}

#[test]
fn submission_over_the_cap_is_unprocessable() {
    assert_eq!(check_submission(21, 0), refusal(422, "too many questions: max 20, received 21"));
    assert_eq!(check_submission(20, 0), Ok(()));
}

#[test]
fn submission_to_a_full_registry_is_unavailable() {
    assert_eq!(
        check_submission(1, 32),
        refusal(503, "question registry full: max 32 concurrent questions")
    );
    assert_eq!(check_submission(1, 31), Ok(()));
}

#[test]
fn answer_without_metadata_depends_on_registration() {
    let answers = vec![vec!["Yes".to_string()]];
    assert_eq!(validate_answers(None, false, &answers), refusal(404, ""));
    assert_eq!(
        validate_answers(None, true, &answers),
        refusal(422, "question metadata unavailable; answer rejected")
    );
}

#[test]
fn answer_with_a_declared_label_passes() {
    let qs = vec![yes_no(false)];
    assert_eq!(validate_answers(Some(&qs), true, &vec![vec!["Yes".to_string()]]), Ok(()));
    assert_eq!(validate_answers(Some(&qs), true, &vec![vec!["No".to_string()]]), Ok(()));
}

#[test]
fn single_select_with_two_labels_is_refused() {
    let qs = vec![yes_no(false)];
    let answers = vec![vec!["Yes".to_string(), "No".to_string()]];
    assert_eq!(
        validate_answers(Some(&qs), true, &answers),
        refusal(422, "question 0 is single-select (multi_select: false) but received 2 label(s)")
    );
    let multi = vec![yes_no(true)];
    assert_eq!(validate_answers(Some(&multi), true, &answers), Ok(()));
}

#[test]
fn too_few_answer_vectors_are_refused() {
    let qs = vec![yes_no(false), yes_no(false)];
    let answers = vec![vec!["Yes".to_string()]];
    assert_eq!(
        validate_answers(Some(&qs), true, &answers),
        refusal(422, "expected 2 answer vector(s), received 1")
    );
}

#[test]
fn undeclared_label_is_refused() {
    let qs = vec![yes_no(false), yes_no(true)];
    let answers = vec![vec!["Yes".to_string()], vec!["No".to_string(), "Maybe".to_string()]];
    assert_eq!(
        validate_answers(Some(&qs), true, &answers),
        refusal(422, "answer 'Maybe' not in declared options for question 1")
    );
}

/// The pending question of the original scenarios: one single-select
/// question with the options `Yes` and `No`.
fn pick_one() -> Vec<QuestionItem> {
    vec![QuestionItem {
        question: "Pick one".to_string(),
        header: "Test".to_string(),
        options: vec![
            QuestionOption { label: "Yes".to_string(), description: String::new() },
            QuestionOption { label: "No".to_string(), description: String::new() },
        ],
        multi_select: false,
    }]
}

fn labels(v: &[&[&str]]) -> Vec<Vec<String>> {
    v.iter().map(|a| a.iter().map(|s| s.to_string()).collect()).collect()
}

#[test]
fn submit_empty_questions_returns_400() {
    assert_eq!(check_submission(0, 0).unwrap_err().status, 400);
}

#[test]
fn submit_too_many_questions_returns_422() {
    assert_eq!(check_submission(21, 0).unwrap_err().status, 422);
}

#[test]
fn submit_when_registry_full_returns_503() {
    assert_eq!(check_submission(1, 32).unwrap_err().status, 503);
}

#[test]
fn answer_unknown_id_returns_404() {
    let r = validate_answers(None, false, &labels(&[&["Yes"]]));
    assert_eq!(r.unwrap_err().status, 404);
}

#[test]
fn answer_too_few_vectors_returns_422() {
    let qs = pick_one();
    assert_eq!(validate_answers(Some(&qs), true, &labels(&[])).unwrap_err().status, 422);
}

#[test]
fn answer_invalid_label_returns_422() {
    let qs = pick_one();
    let r = validate_answers(Some(&qs), true, &labels(&[&["INJECT IGNORED"]]));
    assert_eq!(r.unwrap_err().status, 422);
}

#[test]
fn answer_single_select_multi_label_returns_422() {
    let qs = pick_one();
    let r = validate_answers(Some(&qs), true, &labels(&[&["Yes", "No"]]));
    assert_eq!(r.unwrap_err().status, 422);
}

#[test]
fn answer_valid_label_with_metadata_returns_200() {
    let qs = pick_one();
    assert_eq!(validate_answers(Some(&qs), true, &labels(&[&["Yes"]])), Ok(()));
}
