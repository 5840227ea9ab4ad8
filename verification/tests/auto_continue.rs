use codex_logic::auto_continue::parse_auto_mode_next;
use codex_logic::auto_continue::AutoModeNext;
use codex_logic::auto_continue::AUTO_CONTINUE_DEVELOPER_INSTRUCTIONS;
use codex_logic::auto_continue::AUTO_CONTINUE_FOLLOWUP_PROMPT;

#[test]
fn parses_continue_and_stop_variants() {
    assert_eq!(
        parse_auto_mode_next("AUTO_MODE_NEXT=continue"),
        Some(AutoModeNext::Continue)
    );
    assert_eq!(
        parse_auto_mode_next("auto_mode_next=stop"),
        Some(AutoModeNext::Stop)
    );
    assert_eq!(
        parse_auto_mode_next("AUTO_CONTINUE_NEXT=continue"),
        Some(AutoModeNext::Continue)
    );
}

#[test]
fn parses_embedded_directives_with_punctuation() {
    assert_eq!(
        parse_auto_mode_next("Done. AUTO_MODE_NEXT=continue."),
        Some(AutoModeNext::Continue)
    );
    assert_eq!(
        parse_auto_mode_next("Note: AUTO_MODE_NEXT=stop;"),
        Some(AutoModeNext::Stop)
    );
}

#[test]
fn ignores_unrecognized_values() {
    assert_eq!(parse_auto_mode_next("AUTO_MODE_NEXT=maybe"), None);
    assert_eq!(parse_auto_mode_next("no directive here"), None);
}

#[test]
fn followup_prompt_includes_approval_note() {
    assert!(AUTO_CONTINUE_FOLLOWUP_PROMPT.starts_with("Continue."));
    assert!(
        AUTO_CONTINUE_FOLLOWUP_PROMPT.contains("grants approval"),
        "auto-continue followup should note implicit approval"
    );
}

#[test]
fn followup_prompt_sets_high_throughput_targets() {
    assert!(
        AUTO_CONTINUE_FOLLOWUP_PROMPT.contains("48-72"),
        "followup prompt should enforce higher batch targets"
    );
    assert!(
        AUTO_CONTINUE_FOLLOWUP_PROMPT.contains("48+"),
        "followup prompt should set a minimum task bar"
    );
    assert!(
        AUTO_CONTINUE_FOLLOWUP_PROMPT.contains("four substantial deliverables"),
        "followup prompt should require multiple substantial deliverables"
    );
}

#[test]
fn developer_instructions_set_high_throughput_targets() {
    assert!(
        AUTO_CONTINUE_DEVELOPER_INSTRUCTIONS.contains("48-72"),
        "developer instructions should align with higher batch targets"
    );
    assert!(
        AUTO_CONTINUE_DEVELOPER_INSTRUCTIONS.contains("48+"),
        "developer instructions should set a minimum task bar"
    );
    assert!(
        AUTO_CONTINUE_DEVELOPER_INSTRUCTIONS.contains("four substantial deliverables"),
        "developer instructions should require multiple substantial deliverables"
    );
}

#[test]
fn directive_ignores_ascii_case_of_key_and_value() {
    assert_eq!(
        parse_auto_mode_next("Auto_Mode_Next=CONTINUE"),
        Some(AutoModeNext::Continue)
    );
    assert_eq!(
        parse_auto_mode_next("auto_continue_next=Stop"),
        Some(AutoModeNext::Stop)
    );
    let text = "Summary of work.\nAUTO_MODE_NEXT=stop";
    assert_eq!(
        parse_auto_mode_next(&text.to_ascii_lowercase()),
        parse_auto_mode_next(text)
    );
    assert_eq!(
        parse_auto_mode_next(&text.to_ascii_uppercase()),
        parse_auto_mode_next(text)
    );
}

#[test]
fn message_without_key_has_no_directive() {
    assert_eq!(parse_auto_mode_next(""), None);
    assert_eq!(parse_auto_mode_next("\n\n   \n"), None);
    assert_eq!(parse_auto_mode_next("continue\nstop\nAUTO_MODE_NEXT"), None);
}

#[test]
fn first_line_with_a_key_decides() {
    assert_eq!(
        parse_auto_mode_next("AUTO_MODE_NEXT=maybe\nAUTO_MODE_NEXT=continue"),
        None
    );
    assert_eq!(
        parse_auto_mode_next("intro\nAUTO_MODE_NEXT=stop\nAUTO_MODE_NEXT=continue"),
        Some(AutoModeNext::Stop)
    );
}

#[test]
fn current_key_wins_over_legacy_key_on_one_line() {
    assert_eq!(
        parse_auto_mode_next("AUTO_CONTINUE_NEXT=stop AUTO_MODE_NEXT=continue"),
        Some(AutoModeNext::Continue)
    );
}

#[test]
fn value_is_the_first_word_after_the_key() {
    assert_eq!(
        parse_auto_mode_next("   AUTO_MODE_NEXT=   stop   later words"),
        Some(AutoModeNext::Stop)
    );
    assert_eq!(
        parse_auto_mode_next("AUTO_MODE_NEXT=continue#;,."),
        Some(AutoModeNext::Continue)
    );
    assert_eq!(parse_auto_mode_next("AUTO_MODE_NEXT="), None);
    assert_eq!(parse_auto_mode_next("AUTO_MODE_NEXT=continue`"), None);
    assert_eq!(parse_auto_mode_next("AUTO_MODE_NEXT=stopping"), None);
}

#[test]
fn lines_end_at_newlines_and_unicode_whitespace_is_trimmed() {
    assert_eq!(
        parse_auto_mode_next("done\r\nAUTO_MODE_NEXT=stop\r\n"),
        Some(AutoModeNext::Stop)
    );
    assert_eq!(
        parse_auto_mode_next("\u{3000}AUTO_MODE_NEXT=\u{2003}continue\u{A0}"),
        Some(AutoModeNext::Continue)
    );
}

#[test]
fn prompts_ask_for_a_final_directive_line() {
    let reply = "Work done.\nAUTO_MODE_NEXT=continue\n";
    assert_eq!(parse_auto_mode_next(reply), Some(AutoModeNext::Continue));
    assert!(AUTO_CONTINUE_FOLLOWUP_PROMPT.ends_with("AUTO_MODE_NEXT=continue\nor\nAUTO_MODE_NEXT=stop\n"));
    assert_eq!(
        parse_auto_mode_next(AUTO_CONTINUE_FOLLOWUP_PROMPT),
        Some(AutoModeNext::Continue)
    );
    assert_eq!(parse_auto_mode_next(AUTO_CONTINUE_DEVELOPER_INSTRUCTIONS), None);
}

#[test]
fn keyless_lines_in_front_leave_the_directive_unchanged() {
    let texts = [
        "AUTO_MODE_NEXT=stop",
        "done\nauto_continue_next=continue.",
        "no directive here",
        "AUTO_MODE_NEXT=maybe\nAUTO_MODE_NEXT=stop",
    ];
    let prefixes = ["", "   ", "Summary of the turn", "auto_mode_next stop", "AUTO-MODE-NEXT=stop"];
    for text in texts {
        for prefix in prefixes {
            let longer = format!("{prefix}\n{text}");
            assert_eq!(parse_auto_mode_next(&longer), parse_auto_mode_next(text));
        }
    }
    assert_eq!(
        parse_auto_mode_next("notes\n\nAUTO_MODE_NEXT=continue"),
        Some(AutoModeNext::Continue)
    );
}
