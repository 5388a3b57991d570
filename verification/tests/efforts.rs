use bili_hardcore::llm::providers::claude::{max_tokens, output_effort};
use bili_hardcore::llm::providers::gemini::thinking_level;
use bili_hardcore::llm::providers::openai_chat::{
    dialect_of_host, xai_reasoning_effort, ApiDialect,
};
use bili_hardcore::llm::providers::openai_responses::{is_xai, reasoning_effort};

#[test]
fn every_service_is_asked_for_an_effort_that_it_knows() {
    for saved in ["", "low", " Minimal ", "medium", "HIGH", "max", "xhigh", "none"] {
        for thinking in [false, true] {
            let xai = ["low", "medium", "high", "xhigh"];
            let openai = ["minimal", "low", "medium", "high"];
            assert!(xai.contains(&xai_reasoning_effort(thinking, saved)));
            assert!(xai.contains(&reasoning_effort(true, thinking, saved)));
            assert!(openai.contains(&reasoning_effort(false, thinking, saved)));
            assert!(openai.contains(&thinking_level(thinking, saved)));
            assert!(["low", "medium", "high", "xhigh", "max"]
                .contains(&output_effort(thinking, saved)));
        }
    }
}

#[test]
fn without_thinking_the_least_effort_is_asked_for() {
    for saved in ["low", "max"] {
        assert_eq!(xai_reasoning_effort(false, saved), "low");
        assert_eq!(reasoning_effort(true, false, saved), "low");
        assert_eq!(reasoning_effort(false, false, saved), "minimal");
        assert_eq!(output_effort(false, saved), "low");
        assert_eq!(thinking_level(false, saved), "low");
    }
}

#[test]
fn an_effort_that_nobody_knows_is_high() {
    assert_eq!(xai_reasoning_effort(true, "?"), "high");
    assert_eq!(reasoning_effort(true, true, "?"), "high");
    assert_eq!(reasoning_effort(false, true, "?"), "high");
    assert_eq!(output_effort(true, "?"), "high");
    assert_eq!(thinking_level(true, "?"), "high");
}

#[test]
fn more_effort_has_more_room() {
    let bounds: Vec<u64> = ["low", "medium", "high", "xhigh", "max"]
        .iter()
        .map(|effort| max_tokens(true, effort))
        .collect();
    assert_eq!(bounds, [8192, 16384, 16384, 65536, 65536]);
    assert_eq!(max_tokens(false, "max"), 4096);
}

#[test]
fn both_openai_protocols_tell_xai_alike() {
    assert_eq!(dialect_of_host(Some("api.x.ai"), "m"), ApiDialect::XAi);
    assert!(is_xai("https://api.x.ai/v1/responses", "m"));
    assert_eq!(dialect_of_host(Some("relay.example"), "grok-4"), ApiDialect::XAi);
    assert!(is_xai("https://relay.example/v1/responses", "grok-4"));
    assert_eq!(dialect_of_host(Some("relay.example"), "m"), ApiDialect::Extended);
    assert!(!is_xai("https://relay.example/v1/responses", "m"));
}
