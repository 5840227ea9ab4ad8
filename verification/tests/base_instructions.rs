use codex_logic::base_instructions::ensure_throughput_guidance;

#[test]
fn appends_throughput_guidance_when_missing() {
    let input = "Hello";
    let expected = format!(
        "{input}\n\n## Throughput and batching\n\n- Prefer completing multiple related, high-leverage tasks in a single turn (aim for 36-48 when feasible).\n- If the task is open-ended or the user says \"Continue\", proactively select a batch of adjacent improvements (code, tests, docs) and finish them.\n- Avoid micro-changes; expand to the next meaningful slice that compounds and reduces follow-on work.\n- Keep going until you deliver a substantial result; only pause when blocked by missing info or risk."
    );
    assert_eq!(ensure_throughput_guidance(input.to_string()), expected);
}

#[test]
fn leaves_existing_throughput_guidance_intact() {
    let input = "Header\n\n## Throughput and batching\n\n- already here";
    assert_eq!(ensure_throughput_guidance(input.to_string()), input);
}

#[test]
fn adding_guidance_twice_is_adding_it_once() {
    for input in ["", "Hello", "Some text mentioning Throughput and batching inline"] {
        let once = ensure_throughput_guidance(input.to_string());
        let twice = ensure_throughput_guidance(once.clone());
        assert_eq!(once, twice);
        assert!(once.contains("Throughput and batching"));
        assert!(once.starts_with(input));
    }
}

#[test]
fn empty_instructions_get_the_guidance_after_a_blank_line() {
    let result = ensure_throughput_guidance(String::new());
    assert!(result.starts_with("\n\n## Throughput and batching\n\n- Prefer"));
}
