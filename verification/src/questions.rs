//! Answers to the questions Codex asks during a task.
use vstd::prelude::*;

use crate::text::{trim, trimmed};

verus! {

/// A question Codex asks, with the choices it offers.
#[derive(Clone, Debug)]
pub struct Question {
    pub id: String,
    pub question: String,
    pub options: Vec<String>,
}

/// The answer to a question whose input holds `text`: nothing when skipped or blank, else
/// the trimmed text.
pub open spec fn answer_of(text: Seq<char>, skip: bool) -> Seq<Seq<char>> {
    if skip || trimmed(text).len() == 0 {
        Seq::empty()
    } else {
        seq![trimmed(text)]
    }
}

/// The answers to `questions` from the inputs' `texts`, question by question, as far as
/// both go; skipping answers none of them.
pub fn answers(questions: &Vec<Question>, texts: &Vec<String>, skip: bool) -> (r: Vec<(String, Vec<String>)>)
    ensures
        r@.len() == if questions@.len() < texts@.len() { questions@.len() } else { texts@.len() },
        forall|i: int| 0 <= i < r@.len() ==> (#[trigger] r@[i]).0@ == questions@[i].id@
            && r@[i].1@.map_values(|a: String| a@) == answer_of(texts@[i]@, skip),
{
    let n = if questions.len() < texts.len() { questions.len() } else { texts.len() };
    let mut out: Vec<(String, Vec<String>)> = Vec::new();
    let mut k: usize = 0;
    while k < n
        invariant
            n <= questions@.len(),
            n <= texts@.len(),
            k <= n,
            out@.len() == k,
            forall|i: int| 0 <= i < k ==> (#[trigger] out@[i]).0@ == questions@[i].id@
                && out@[i].1@.map_values(|a: String| a@) == answer_of(texts@[i]@, skip),
        decreases n - k,
    {
        let text = trim(texts[k].as_str());
        let mut given: Vec<String> = Vec::new();
        if !skip && text.unicode_len() > 0 {
            given.push(text);
        }
        assert(given@.map_values(|a: String| a@) =~= answer_of(texts@[k as int]@, skip));
        out.push((questions[k].id.clone(), given));
        k = k + 1;
    }
    out
}

/// What the question card shows after sending the answers failed.
pub fn send_failure_text() -> (r: &'static str)
    ensures
        r@ == "Codex disconnected before your answer could be sent."@,
{
    "Codex disconnected before your answer could be sent."
}

} // verus!
