use driver::openai::{FunctionCall, Message, ToolCall};
use driver::tokens;

fn by_floats(n: usize) -> usize {
    (n as f32 / 3.5).ceil() as usize
}

#[test]
fn estimates_are_exact_for_short_texts() {
    assert_eq!(tokens::estimate_tokens(""), 0);
    assert_eq!(tokens::estimate_tokens("a"), 1);
    assert_eq!(tokens::estimate_tokens("abcdefg"), 2);
    assert_eq!(tokens::estimate_tokens("abcdefgh"), 3);
    assert_eq!(tokens::estimate_tokens("ééééééé"), 2);
    for n in 0..200_000usize {
        assert_eq!(tokens::estimate_count(n), (2 * n + 6) / 7);
        assert_eq!(tokens::estimate_count(n), by_floats(n));
    }
}

#[test]
fn estimates_round_as_floats_do() {
    for start in [
        14_680_000usize,
        16_777_000,
        29_360_000,
        33_554_000,
        58_720_000,
        100_000_000,
        1_000_000_000,
        4_294_967_000,
        1_000_000_000_000,
        9_223_372_036_854_000_000,
        18_446_744_073_709_000_000,
    ] {
        for n in start..start + 600 {
            assert_eq!(tokens::estimate_count(n), by_floats(n), "{}", n);
        }
    }
    let mut n: usize = 1;
    while n < usize::MAX / 3 {
        for k in [n - 1, n, n + 1, n + n / 2, n + n / 3] {
            assert_eq!(tokens::estimate_count(k), by_floats(k), "{}", k);
        }
        n = n * 2;
    }
    assert_eq!(tokens::estimate_count(usize::MAX), by_floats(usize::MAX));
}

fn message(content: Option<&str>, calls: Option<Vec<ToolCall>>) -> Message {
    Message {
        role: "assistant".to_string(),
        content: content.map(String::from),
        tool_calls: calls,
        tool_call_id: None,
    }
}

#[test]
fn histories_add_up() {
    let call = ToolCall {
        id: "1".to_string(),
        call_type: "function".to_string(),
        function: FunctionCall { name: "f".to_string(), arguments: "{}".to_string() },
    };
    // [{"function":{"arguments":"{}","name":"f"},"id":"1","type":"function"}]
    assert_eq!(tokens::estimate_history_tokens(&vec![message(None, Some(vec![call.clone()]))]), 21);
    assert_eq!(tokens::estimate_history_tokens(&vec![message(Some("abcdefg"), None)]), 2);
    let both = vec![message(Some("abcdefg"), None), message(Some("x"), Some(vec![call]))];
    assert_eq!(tokens::estimate_history_tokens(&both), 24);
    assert_eq!(tokens::try_estimate_history_tokens(&both), Some(24));
    assert_eq!(tokens::estimate_history_tokens(&vec![]), 0);
    assert_eq!(tokens::add_estimates(usize::MAX, 1, 0), None);
    assert_eq!(tokens::add_estimates(1, 2, 3), Some(6));
}
