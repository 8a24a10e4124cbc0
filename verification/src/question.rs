//! Operator questions: admission of a question batch, and screening of the
//! operator's answers against the declared options.
use vstd::prelude::*;

use crate::text::{decimal, decimal_string, str_eq};

verus! {

/// Most questions in one submission.
pub const MAX_QUESTIONS_PER_SUBMIT: usize = 20;

/// Most questions pending at once.
pub const MAX_CONCURRENT_QUESTIONS: usize = 32;

/// One option of a question.
#[derive(Debug, Clone)]
pub struct QuestionOption {
    pub label: String,
    pub description: String,
}

/// One question put to the operator.
#[derive(Debug, Clone)]
pub struct QuestionItem {
    pub question: String,
    pub header: String,
    pub options: Vec<QuestionOption>,
    pub multi_select: bool,
}

/// A refusal: the HTTP status and the message of the error body.
#[derive(Debug, Clone, PartialEq, Eq)]
pub struct Refusal {
    pub status: u16,
    pub message: String,
}

/// Why a submission is refused: none → 400; more than 20 → 422; 32 already
/// pending → 503.
pub open spec fn submit_refusal(count: int, pending: int) -> Option<(u16, Seq<char>)> {
    if count == 0 {
        Some((400u16, "questions must not be empty"@))
    } else if count > MAX_QUESTIONS_PER_SUBMIT {
        Some(
            (
                422u16,
                "too many questions: max 20, received "@ + decimal(count as nat),
            ),
        )
    } else if pending >= MAX_CONCURRENT_QUESTIONS {
        Some((503u16, "question registry full: max 32 concurrent questions"@))
    } else {
        None
    }
}

pub open spec fn refusal_view(r: Result<(), Refusal>) -> Option<(u16, Seq<char>)> {
    match r {
        Ok(_) => None,
        Err(f) => Some((f.status, f.message@)),
    }
}

/// Admit a submission of `count` questions while `pending` are pending.
pub fn check_submission(count: usize, pending: usize) -> (r: Result<(), Refusal>)
    ensures
        refusal_view(r) == submit_refusal(count as int, pending as int),
{
    if count == 0 {
        return Err(Refusal { status: 400, message: String::from_str("questions must not be empty") });
    }
    if count > MAX_QUESTIONS_PER_SUBMIT {
        return Err(
            Refusal {
                status: 422,
                message: String::from_str("too many questions: max 20, received ").concat(
                    decimal_string(count as u64).as_str(),
                ),
            },
        );
    }
    if pending >= MAX_CONCURRENT_QUESTIONS {
        return Err(
            Refusal {
                status: 503,
                message: String::from_str("question registry full: max 32 concurrent questions"),
            },
        );
    }
    Ok(())
}

/// The labels a question offers.
pub open spec fn offers(q: QuestionItem, label: Seq<char>) -> bool {
    exists|k: int| 0 <= k < q.options@.len() && #[trigger] q.options@[k].label@ == label
}

/// The first problem with the answer vectors `ans` given to `qs`, scanning
/// from question `i`: a single-select question without exactly one label,
/// or a label the question does not offer.
pub open spec fn answer_problem(qs: Seq<QuestionItem>, ans: Seq<Seq<String>>, i: int) -> Option<
    Seq<char>,
>
    decreases ans.len() - i,
{
    if i < 0 || i >= ans.len() || i >= qs.len() {
        None
    } else if !qs[i].multi_select && ans[i].len() != 1 {
        Some(
            "question "@ + decimal(i as nat) + " is single-select (multi_select: false) but received "@
                + decimal(ans[i].len()) + " label(s)"@,
        )
    } else {
        match label_problem(qs[i], ans[i], i, 0) {
            Some(m) => Some(m),
            None => answer_problem(qs, ans, i + 1),
        }
    }
}

/// The first label of `labels` from `j` on that `q` does not offer.
pub open spec fn label_problem(q: QuestionItem, labels: Seq<String>, i: int, j: int) -> Option<
    Seq<char>,
>
    decreases labels.len() - j,
{
    if j < 0 || j >= labels.len() {
        None
    } else if !offers(q, labels[j]@) {
        Some(
            "answer '"@ + labels[j]@ + "' not in declared options for question "@ + decimal(
                i as nat,
            ),
        )
    } else {
        label_problem(q, labels, i, j + 1)
    }
}

/// Why an answer is refused.  Without the question's metadata: 422 while
/// the question is still registered, else 404; a count of answer vectors
/// other than the count of questions → 422; then the first answer problem → 422.
pub open spec fn answer_refusal(
    qs: Option<Seq<QuestionItem>>,
    registered: bool,
    ans: Seq<Seq<String>>,
) -> Option<(u16, Seq<char>)> {
    match qs {
        None => if registered {
            Some((422u16, "question metadata unavailable; answer rejected"@))
        } else {
            Some((404u16, Seq::empty()))
        },
        Some(q) => if ans.len() != q.len() {
            Some(
                (
                    422u16,
                    "expected "@ + decimal(q.len()) + " answer vector(s), received "@ + decimal(
                        ans.len(),
                    ),
                ),
            )
        } else {
            match answer_problem(q, ans, 0) {
                Some(m) => Some((422u16, m)),
                None => None,
            }
        },
    }
}

fn offered(q: &QuestionItem, label: &String) -> (b: bool)
    ensures
        b == offers(*q, label@),
{
    let mut k: usize = 0;
    while k < q.options.len()
        invariant
            k <= q.options.len(),
            forall|m: int| 0 <= m < k ==> q.options@[m].label@ != label@,
        decreases q.options.len() - k,
    {
        if str_eq(q.options[k].label.as_str(), label.as_str()) {
            return true;
        }
        k += 1;
    }
    false
}

pub open spec fn vec_views(v: Seq<Vec<String>>) -> Seq<Seq<String>> {
    v.map_values(|x: Vec<String>| x@)
}

/// Screen the operator's answers against the declared questions.
pub fn validate_answers(
    questions: Option<&Vec<QuestionItem>>,
    registered: bool,
    answers: &Vec<Vec<String>>,
) -> (r: Result<(), Refusal>)
    ensures
        refusal_view(r) == answer_refusal(
            match questions {
                Some(q) => Some(q@),
                None => None,
            },
            registered,
            vec_views(answers@),
        ),
{
    let ghost av = vec_views(answers@);
    let qs = match questions {
        None => {
            if registered {
                return Err(
                    Refusal {
                        status: 422,
                        message: String::from_str("question metadata unavailable; answer rejected"),
                    },
                );
            }
            let empty = String::new();
            return Err(Refusal { status: 404, message: empty });
        },
        Some(q) => q,
    };
    if answers.len() != qs.len() {
        return Err(
            Refusal {
                status: 422,
                message: String::from_str("expected ").concat(decimal_string(qs.len() as u64).as_str()).concat(
                    " answer vector(s), received ",
                ).concat(decimal_string(answers.len() as u64).as_str()),
            },
        );
    }
    let mut i: usize = 0;
    while i < answers.len()
        invariant
            i <= answers.len() == qs.len(),
            questions == Some(qs),
            av == vec_views(answers@),
            answer_problem(qs@, av, 0) == answer_problem(qs@, av, i as int),
        decreases answers.len() - i,
    {
        let q = &qs[i];
        let a = &answers[i];
        assert(av[i as int] == a@);
        if !q.multi_select && a.len() != 1 {
            let message = String::from_str("question ").concat(
                decimal_string(i as u64).as_str(),
            ).concat(" is single-select (multi_select: false) but received ").concat(
                decimal_string(a.len() as u64).as_str(),
            ).concat(" label(s)");
            proof {
                assert(qs@[i as int] == *q);
                assert(answer_problem(qs@, av, i as int) == Some(message@));
            }
            return Err(Refusal { status: 422, message });
        }
        let mut j: usize = 0;
        while j < a.len()
            invariant
                j <= a.len(),
                i < answers.len() == qs.len(),
                questions == Some(qs),
                av == vec_views(answers@),
                *q == qs@[i as int],
                a@ == av[i as int],
                answer_problem(qs@, av, 0) == answer_problem(qs@, av, i as int),
                q.multi_select || a.len() == 1,
                label_problem(*q, a@, i as int, 0) == label_problem(*q, a@, i as int, j as int),
            decreases a.len() - j,
        {
            if !offered(q, &a[j]) {
                let message = String::from_str("answer '").concat(a[j].as_str()).concat(
                    "' not in declared options for question ",
                ).concat(decimal_string(i as u64).as_str());
                proof {
                    assert(qs@[i as int] == *q);
                    assert(label_problem(*q, a@, i as int, j as int) == Some(message@));
                    assert(answer_problem(qs@, av, i as int) == Some(message@));
                }
                return Err(Refusal { status: 422, message });
            }
            j += 1;
        }
        i += 1;
    }
    Ok(())
}

// ── Laws of answer screening ────────────────────────────────────────────────

proof fn lemma_label_problem_found(q: QuestionItem, labels: Seq<String>, i: int, from: int, j: int)
    requires
        0 <= from <= j < labels.len(),
        !offers(q, labels[j]@),
    ensures
        label_problem(q, labels, i, from) is Some,
    decreases j - from,
{
    if offers(q, labels[from]@) {
        lemma_label_problem_found(q, labels, i, from + 1, j);
    }
}

/// A single-select question answered with one declared label passes.
pub proof fn declared_label_passes(q: QuestionItem, label: String, registered: bool)
    requires
        !q.multi_select,
        offers(q, label@),
    ensures
        answer_refusal(Some(seq![q]), registered, seq![seq![label]]) is None,
{
    let qs = seq![q];
    let ans = seq![seq![label]];
    assert(label_problem(q, ans[0], 0, 1) is None);
    assert(label_problem(q, ans[0], 0, 0) is None);
    assert(answer_problem(qs, ans, 1) is None);
    assert(answer_problem(qs, ans, 0) is None);
}

/// A label that the question does not declare is refused (422), wherever it
/// stands among the answer's labels, when the label count is allowed.
pub proof fn undeclared_label_refused(q: QuestionItem, labels: Seq<String>, j: int, registered: bool)
    requires
        0 <= j < labels.len(),
        !offers(q, labels[j]@),
        q.multi_select || labels.len() == 1,
    ensures
        answer_refusal(Some(seq![q]), registered, seq![labels]) matches Some((st, _)) && st == 422,
{
    lemma_label_problem_found(q, labels, 0, 0, j);
    let qs = seq![q];
    let ans = seq![labels];
    assert(answer_problem(qs, ans, 0) is Some);
}

/// A single-select question answered with several labels is refused (422).
pub proof fn single_select_many_labels_refused(q: QuestionItem, labels: Seq<String>, registered: bool)
    requires
        !q.multi_select,
        labels.len() > 1,
    ensures
        answer_refusal(Some(seq![q]), registered, seq![labels]) matches Some((st, _)) && st == 422,
{
    let qs = seq![q];
    let ans = seq![labels];
    assert(answer_problem(qs, ans, 0) is Some);
}

} // verus!
