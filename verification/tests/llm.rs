use clawcombat::llm::{chat_prompt_segment, decimal_string, engine_response};

fn reference_response(success: bool, stdout: &str, stderr: &str, code: Option<i32>) -> String {
    if !success || stdout.is_empty() {
        format!(
            "엔진 실행 실패 (Exit Code: {:?})\n--- Stderr 에러 로그 ---\n{}",
            code, stderr
        )
    } else if let Some(idx) = stdout.find("<|im_start|>assistant\n") {
        stdout[idx + "<|im_start|>assistant\n".len()..].to_string()
    } else {
        stdout.to_string()
    }
}

#[test]
fn prompt_segment_frames_the_request() {
    let p = "1분대 전진";
    let expected = format!(
        "<|im_start|>system\nYou are a military tactician. Respond ONLY with a compact JSON object fitting the PRD specification without markdown code blocks or extra natural language explanations.<|im_end|>\n<|im_start|>user\n{}<|im_end|>\n<|im_start|>assistant\n",
        p
    );
    assert_eq!(chat_prompt_segment(p), expected);
}

#[test]
fn decimal_strings() {
    for n in [0, 7, 10, 42, -1, -90, 1234567, i32::MAX, i32::MIN] {
        assert_eq!(decimal_string(n), n.to_string());
    }
}

#[test]
fn reply_after_first_marker() {
    let out = "noise<|im_start|>assistant\n{\"a\":1}<|im_start|>assistant\nmore";
    assert_eq!(engine_response(true, out, "", Some(0)), "{\"a\":1}<|im_start|>assistant\nmore");
    assert_eq!(engine_response(true, "{\"plain\":true}", "", Some(0)), "{\"plain\":true}");
}

#[test]
fn failures_report_exit_code_and_stderr() {
    assert_eq!(
        engine_response(false, "x", "boom", Some(-3)),
        "엔진 실행 실패 (Exit Code: Some(-3))\n--- Stderr 에러 로그 ---\nboom"
    );
    assert_eq!(
        engine_response(true, "", "", None),
        "엔진 실행 실패 (Exit Code: None)\n--- Stderr 에러 로그 ---\n"
    );
}

#[test]
fn engine_responses_match_std_on_samples() {
    let outs = ["", "abc", "<|im_start|>assistant\n", "<|im_start|>assistant", "x<|im_start|>assistant\n\n", "한글<|im_start|>assistant\n답"];
    for out in outs {
        for (ok, code) in [(true, Some(0)), (false, Some(1)), (false, None), (true, Some(i32::MIN))] {
            assert_eq!(engine_response(ok, out, "err", code), reference_response(ok, out, "err", code));
        }
    }
}
