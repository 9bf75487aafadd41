//! The text exchanged with the language model engine: the prompt frame
//! around a player's request, and the reply taken from the engine's output.

use vstd::prelude::*;
use crate::text::{chars_of, decimal_text, digits_string, string_of_range};
use vstd::string::StringExecFns;

verus! {

/// What comes before the player's request in a prompt.
pub open spec fn prompt_head() -> Seq<char> {
    "<|im_start|>system\nYou are a military tactician. Respond ONLY with a compact JSON object fitting the PRD specification without markdown code blocks or extra natural language explanations.<|im_end|>\n<|im_start|>user\n"@
}

/// What comes after the player's request in a prompt.
pub open spec fn prompt_tail() -> Seq<char> {
    "<|im_end|>\n<|im_start|>assistant\n"@
}

/// The marker after which the engine's output holds the reply.
pub open spec fn reply_marker() -> Seq<char> {
    "<|im_start|>assistant\n"@
}

/// How `{:?}` writes an optional exit code.
pub open spec fn exit_code_text(code: Option<i32>) -> Seq<char> {
    match code {
        Some(c) => "Some("@ + decimal_text(c as int) + ")"@,
        None => "None"@,
    }
}

/// The message shown when the engine failed.
pub open spec fn failure_text(code: Option<i32>, stderr: Seq<char>) -> Seq<char> {
    "엔진 실행 실패 (Exit Code: "@ + exit_code_text(code) + ")\n--- Stderr 에러 로그 ---\n"@
        + stderr
}

/// Whether `marker` starts at position `i` of `s`.
pub open spec fn occurs_at(s: Seq<char>, marker: Seq<char>, i: int) -> bool {
    0 <= i && i + marker.len() <= s.len() && s.subrange(i, i + marker.len()) == marker
}

/// The reply in the engine's output: what follows the first marker, or
/// the whole output when there is no marker.
pub open spec fn reply_text(out: Seq<char>) -> Seq<char> {
    if exists|i: int| occurs_at(out, reply_marker(), i) {
        let i = choose|i: int|
            occurs_at(out, reply_marker(), i) && forall|j: int|
                0 <= j < i ==> !occurs_at(out, reply_marker(), j);
        out.skip(i + reply_marker().len())
    } else {
        out
    }
}

/// What the player reads of an engine run: the failure message when the
/// engine failed or printed nothing, else the reply in its output.
pub open spec fn spec_engine_response(
    success: bool,
    stdout: Seq<char>,
    stderr: Seq<char>,
    code: Option<i32>,
) -> Seq<char> {
    if !success || stdout.len() == 0 {
        failure_text(code, stderr)
    } else {
        reply_text(stdout)
    }
}

/// The prompt that asks the engine to answer the player's `prompt`.
pub fn chat_prompt_segment(prompt: &str) -> (res: String)
    ensures
        res@ == prompt_head() + prompt@ + prompt_tail(),
{
    "<|im_start|>system\nYou are a military tactician. Respond ONLY with a compact JSON object fitting the PRD specification without markdown code blocks or extra natural language explanations.<|im_end|>\n<|im_start|>user\n".to_owned().concat(
        prompt,
    ).concat("<|im_end|>\n<|im_start|>assistant\n")
}

/// The decimal text of `n`.
pub fn decimal_string(n: i32) -> (res: String)
    ensures
        res@ == decimal_text(n as int),
{
    let wide: i64 = n as i64;
    let m: u64 = if wide < 0 { (0 - wide) as u64 } else { wide as u64 };
    let digits = digits_string(m);
    if wide < 0 {
        proof {
            reveal_strlit("-");
        }
        "-".to_owned().concat(digits.as_str())
    } else {
        digits
    }
}

/// Where `marker` first occurs in `v`, if it does.
pub(crate) fn find_first(v: &Vec<char>, marker: &Vec<char>) -> (res: Option<usize>)
    ensures
        res matches Some(i) ==> occurs_at(v@, marker@, i as int) && forall|j: int|
            0 <= j < i ==> !occurs_at(v@, marker@, j),
        res is None ==> forall|j: int| !occurs_at(v@, marker@, j),
{
    let n = v.len();
    let k = marker.len();
    if k > n {
        return None;
    }
    let mut i: usize = 0;
    while i <= n - k
        invariant
            k == marker@.len(),
            n == v@.len(),
            k <= n,
            i <= n - k + 1,
            forall|j: int| 0 <= j < i ==> !occurs_at(v@, marker@, j),
        decreases n - i,
    {
        let mut m: usize = 0;
        let mut same = true;
        while m < k
            invariant
                m <= k,
                i + k <= n,
                k == marker@.len(),
                n == v@.len(),
                same == (forall|t: int| 0 <= t < m ==> v@[i + t] == marker@[t]),
            decreases k - m,
        {
            if v[i + m] != marker[m] {
                same = false;
            }
            m = m + 1;
        }
        if same {
            assert(v@.subrange(i as int, i + k) =~= marker@);
            return Some(i);
        }
        assert(!occurs_at(v@, marker@, i as int)) by {
            if occurs_at(v@, marker@, i as int) {
                assert forall|t: int| 0 <= t < k implies v@[i + t] == marker@[t] by {
                    assert(v@.subrange(i as int, i + k)[t] == v@[i + t]);
                }
            }
        }
        i = i + 1;
    }
    None
}

/// What the player reads of an engine run, from whether the engine
/// succeeded, what it printed, and its exit code.
pub fn engine_response(success: bool, stdout: &str, stderr: &str, exit_code: Option<i32>) -> (res:
    String)
    ensures
        res@ == spec_engine_response(success, stdout@, stderr@, exit_code),
{
    let out = chars_of(stdout);
    if !success || out.len() == 0 {
        let code = match exit_code {
            Some(c) => "Some(".to_owned().concat(decimal_string(c).as_str()).concat(")"),
            None => "None".to_owned(),
        };
        return "엔진 실행 실패 (Exit Code: ".to_owned().concat(code.as_str()).concat(
            ")\n--- Stderr 에러 로그 ---\n",
        ).concat(stderr);
    }
    let marker = chars_of("<|im_start|>assistant\n");
    match find_first(&out, &marker) {
        Some(i) => {
            let start = i + marker.len();
            let text = string_of_range(&out, start, out.len());
            proof {
                let chosen = choose|j: int|
                    occurs_at(out@, reply_marker(), j) && forall|t: int|
                        0 <= t < j ==> !occurs_at(out@, reply_marker(), t);
                assert(occurs_at(out@, reply_marker(), i as int));
                if chosen < i {
                } else if chosen > i {
                }
                assert(chosen == i);
                assert(out@.subrange(start as int, out@.len() as int) =~= out@.skip(start as int));
            }
            text
        },
        None => {
            proof {
                assert(out@ == stdout@);
            }
            String::from_str(stdout)
        },
    }
}

} // verus!
