use driver::report;

fn lines(items: &[&str]) -> Vec<String> {
    items.iter().map(|s| s.to_string()).collect()
}

#[test]
fn a_run_is_reported() {
    let log = lines(&[
        "{\"ts\":\"T0\",\"kind\":\"run_start\",\"name\":\"job\",\"model\":\"m\",\"user_prompt\":\"do it\"}",
        "not json",
        "{\"kind\":\"reasoning\",\"iteration\":1,\"content\":\"hm\"}",
        "{\"kind\":\"tool_call\",\"iteration\":1,\"id\":\"c\",\"name\":\"bash\"}",
        "{\"kind\":\"tool_result\",\"iteration\":1,\"id\":\"c\",\"content\":\"ok\"}",
        "{\"kind\":\"tool_call\",\"iteration\":1,\"id\":\"d\"}",
        "{\"kind\":\"final_answer\",\"iteration\":2,\"content\":\"42\"}",
        "{\"kind\":\"run_end\",\"duration_ms\":5,\"total_tokens\":9}",
    ]);
    let expected = "# Run: job \u{2014} T0\n\n**Model:** m | **Duration:** 5ms | **Tokens:** 9\n\n**Task:** do it\n\n---\n\n## Final Answer\n\n42\n\n---\n\n## Trace (2 iterations)\n\n### Iteration 1\n\n*Reasoning:* hm\n\n- `bash` \u{2192} `ok`\n- `?` \u{2192} `(no result)`\n\n### Iteration 2\n\n*Final answer:* 42\n\n---\n";
    assert_eq!(report::compose_report(&log), expected);
    assert_eq!(report::try_compose_report(&log), Some(expected.to_string()));
}

#[test]
fn an_empty_log_is_reported() {
    assert_eq!(
        report::compose_report(&vec![]),
        "# Run: unnamed \u{2014} unknown\n\n**Model:** unknown | **Duration:** 0ms | **Tokens:** 0\n\n---\n\n## Final Answer\n\n(no answer)\n\n---\n\n## Trace (0 iterations)\n\n---\n"
    );
}

#[test]
fn long_texts_are_cut_in_a_report() {
    let log = vec![
        format!("{{\"kind\":\"reasoning\",\"iteration\":1,\"content\":\"{}\"}}", "r".repeat(501)),
        "{\"kind\":\"tool_call\",\"iteration\":1,\"id\":\"c\",\"name\":\"n\"}".to_string(),
        format!("{{\"kind\":\"tool_result\",\"id\":\"c\",\"content\":\"{}\"}}", "x".repeat(201)),
    ];
    let said = report::compose_report(&log);
    assert!(said.contains(&format!("*Reasoning:* {}...\n\n", "r".repeat(500))));
    assert!(said.contains(&format!("- `n` \u{2192} `{}...`\n", "x".repeat(200))));
    let split = vec![format!(
        "{{\"kind\":\"reasoning\",\"iteration\":1,\"content\":\"{}é\"}}",
        "r".repeat(499)
    )];
    assert_eq!(report::try_compose_report(&split), None);
}
