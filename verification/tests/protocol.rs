use bili_hardcore::llm::protocol::{
    endpoint, has_version_segment, infer_from_parts, infer_protocol, normalize_base, resolve,
    supports_thinking, versioned_base, Protocol,
};
use bili_hardcore::llm::url::UrlParts;

#[test]
fn strips_known_endpoints_and_their_version_segment() {
    assert_eq!(
        normalize_base("https://api.openai.com/v1/chat/completions"),
        "https://api.openai.com"
    );
    assert_eq!(
        normalize_base("https://api.openai.com/v1/responses/"),
        "https://api.openai.com"
    );
    assert_eq!(
        normalize_base("https://api.anthropic.com/v1/messages"),
        "https://api.anthropic.com"
    );
    assert_eq!(
        normalize_base("https://api.typesafe.ai/v1/systemone"),
        "https://api.typesafe.ai"
    );
    assert_eq!(
        normalize_base("https://generativelanguage.googleapis.com/v1beta/models/x:generateContent"),
        "https://generativelanguage.googleapis.com"
    );
}

#[test]
fn keeps_bare_bases_and_unrelated_paths() {
    assert_eq!(normalize_base("https://api.openai.com"), "https://api.openai.com");
    assert_eq!(normalize_base("  https://api.openai.com//  "), "https://api.openai.com");
    assert_eq!(
        normalize_base("https://relay.example.com/typesafe/systemone"),
        "https://relay.example.com/typesafe"
    );
    assert_eq!(normalize_base("not a url"), "not a url");
}

#[test]
fn version_in_base_is_used_verbatim_for_every_protocol() {
    assert_eq!(
        endpoint(Protocol::OpenAiChat, "https://relay.example.com/v2", "m"),
        "https://relay.example.com/v2/chat/completions"
    );
    assert_eq!(
        endpoint(Protocol::OpenAiResponses, "https://relay.example.com/v3", "m"),
        "https://relay.example.com/v3/responses"
    );
    assert_eq!(
        endpoint(Protocol::Claude, "https://relay.example.com/v1", "m"),
        "https://relay.example.com/v1/messages"
    );
    assert_eq!(
        endpoint(Protocol::Jev, "http://192.168.0.2:3000/v1", "m"),
        "http://192.168.0.2:3000/v1/systemone"
    );
    assert_eq!(
        endpoint(
            Protocol::GeminiInteractions,
            "https://generativelanguage.googleapis.com/v1beta",
            "m"
        ),
        "https://generativelanguage.googleapis.com/v1beta/interactions"
    );
    assert_eq!(
        endpoint(
            Protocol::OpenAiChat,
            "https://open.bigmodel.cn/api/paas/v4",
            "glm-4.7"
        ),
        "https://open.bigmodel.cn/api/paas/v4/chat/completions"
    );
}

#[test]
fn missing_version_falls_back_to_the_protocol_default() {
    assert_eq!(
        versioned_base(Protocol::OpenAiChat, "https://api.openai.com"),
        "https://api.openai.com/v1"
    );
    assert_eq!(
        versioned_base(Protocol::OpenAiResponses, "https://api.x.ai"),
        "https://api.x.ai/v1"
    );
    assert_eq!(
        versioned_base(Protocol::Claude, "https://api.anthropic.com"),
        "https://api.anthropic.com/v1"
    );
    assert_eq!(
        versioned_base(Protocol::Jev, "https://api.typesafe.ai"),
        "https://api.typesafe.ai/v1"
    );
    assert_eq!(
        versioned_base(Protocol::Gemini, "https://generativelanguage.googleapis.com"),
        "https://generativelanguage.googleapis.com/v1beta"
    );
    assert_eq!(
        versioned_base(
            Protocol::GeminiInteractions,
            "https://generativelanguage.googleapis.com"
        ),
        "https://generativelanguage.googleapis.com/v1beta"
    );
    assert_eq!(
        versioned_base(Protocol::Gemini, "https://host.example/v1beta"),
        "https://host.example/v1beta"
    );
}

#[test]
fn builds_endpoints_from_base_only() {
    assert_eq!(
        endpoint(Protocol::OpenAiChat, "https://api.openai.com", "gpt-test"),
        "https://api.openai.com/v1/chat/completions"
    );
    assert_eq!(
        endpoint(Protocol::OpenAiResponses, "https://api.openai.com/", "gpt-test"),
        "https://api.openai.com/v1/responses"
    );
    assert_eq!(
        endpoint(Protocol::Claude, "https://api.anthropic.com", "anthropic-sonnet-5"),
        "https://api.anthropic.com/v1/messages"
    );
    assert_eq!(
        endpoint(Protocol::Gemini, "https://generativelanguage.googleapis.com", "gemini-3-flash-preview"),
        "https://generativelanguage.googleapis.com/v1beta/models/gemini-3-flash-preview:streamGenerateContent?alt=sse"
    );
    assert_eq!(
        endpoint(Protocol::Jev, "https://api.typesafe.ai", "jev-latest"),
        "https://api.typesafe.ai/v1/systemone"
    );
}

#[test]
fn gemini_endpoint_escapes_the_model_path_segment() {
    assert_eq!(
        endpoint(Protocol::Gemini, "https://generativelanguage.googleapis.com", "models/x y"),
        "https://generativelanguage.googleapis.com/v1beta/models/models%2Fx%20y:streamGenerateContent?alt=sse"
    );
}

#[test]
fn endpoint_round_trips_legacy_full_urls() {
    for (protocol, full) in [
        (Protocol::OpenAiChat, "https://api.openai.com/v1/chat/completions"),
        (Protocol::OpenAiResponses, "https://api.openai.com/v1/responses"),
        (Protocol::Claude, "https://api.anthropic.com/v1/messages"),
        (Protocol::Jev, "https://api.typesafe.ai/v1/systemone"),
    ] {
        assert_eq!(endpoint(protocol, full, "model"), full);
    }
}

#[test]
fn infers_protocol_from_legacy_configs() {
    assert_eq!(
        infer_protocol("https://api.typesafe.ai/v1/systemone"),
        Protocol::Jev
    );
    assert_eq!(
        infer_protocol("https://relay.example.com/typesafe/systemone"),
        Protocol::Jev
    );
    assert_eq!(
        infer_protocol("https://api.anthropic.com/v1/messages"),
        Protocol::Claude
    );
    assert_eq!(
        infer_protocol("https://api.openai.com/v1/responses"),
        Protocol::OpenAiResponses
    );
    assert_eq!(
        infer_protocol("https://generativelanguage.googleapis.com"),
        Protocol::Gemini
    );
    assert_eq!(
        infer_protocol("https://api.openai.com/v1/chat/completions"),
        Protocol::OpenAiChat
    );
    assert_eq!(
        infer_protocol("https://api.siliconflow.cn/v1/chat/completions"),
        Protocol::OpenAiChat
    );
    assert_eq!(infer_protocol("not a url"), Protocol::OpenAiChat);
}

#[test]
fn relay_endpoints_resolve_before_the_base_is_normalized() {
    let (protocol, base) = resolve("http://192.168.0.2:3000/v1/systemone");
    assert_eq!(protocol, Protocol::Jev);
    assert_eq!(base, "http://192.168.0.2:3000");
    assert_eq!(
        endpoint(protocol, &base, "jev-latest"),
        "http://192.168.0.2:3000/v1/systemone"
    );

    assert_eq!(infer_protocol(&base), Protocol::OpenAiChat);
}

#[test]
fn only_jev_lacks_a_thinking_switch() {
    assert!(supports_thinking(Protocol::OpenAiChat));
    assert!(supports_thinking(Protocol::OpenAiResponses));
    assert!(supports_thinking(Protocol::Claude));
    assert!(supports_thinking(Protocol::Gemini));
    assert!(!supports_thinking(Protocol::Jev));
}

#[test]
fn protocol_cycles_through_every_adapter() {
    let mut protocol = Protocol::OpenAiChat;
    for _ in 0..Protocol::ALL.len() {
        protocol = protocol.next();
    }
    assert_eq!(protocol, Protocol::OpenAiChat);
    assert_eq!(Protocol::OpenAiChat.previous(), Protocol::Jev);
}

#[test]
fn protocols_follow_each_other_and_back() {
    for (index, protocol) in Protocol::ALL.into_iter().enumerate() {
        assert_eq!(protocol.next(), Protocol::ALL[(index + 1) % 6]);
        assert_eq!(protocol.next().previous(), protocol);
    }
    assert_eq!(Protocol::default(), Protocol::OpenAiChat);
    assert_eq!(Protocol::GeminiInteractions.display_name(), "Gemini Interactions");
}

#[test]
fn versions_are_a_v_digits_and_letters() {
    assert!(has_version_segment("https://a/v1"));
    assert!(has_version_segment("https://a/V12beta"));
    assert!(has_version_segment("v3"));
    assert!(!has_version_segment("https://a/v"));
    assert!(!has_version_segment("https://a/vbeta"));
    assert!(!has_version_segment("https://a/v1-2"));
    assert!(!has_version_segment("https://a/v1beta2"));
    assert!(!has_version_segment("https://a/v1/"));
    assert!(!has_version_segment(""));
}

#[test]
fn a_cut_address_may_show_another_endpoint() {
    assert_eq!(
        normalize_base("https://a/responses/chat/completions"),
        "https://a/responses"
    );
    assert_eq!(normalize_base("https://a/V1BETA/Messages"), "https://a");
    assert_eq!(
        normalize_base("https://a/v1beta/models/m:countTokens?x"),
        "https://a"
    );
}

#[test]
fn parts_of_an_address_point_to_a_protocol() {
    let parts = |host: &str, path: &str| {
        Some(UrlParts {
            host: Some(host.to_string()),
            path: path.to_string(),
        })
    };
    assert_eq!(infer_from_parts(&None), Protocol::OpenAiChat);
    assert_eq!(infer_from_parts(&parts("API.Anthropic.com", "/")), Protocol::Claude);
    assert_eq!(infer_from_parts(&parts("a", "/v1/Messages//")), Protocol::Claude);
    assert_eq!(infer_from_parts(&parts("a", "/x/systemone")), Protocol::Jev);
    assert_eq!(infer_from_parts(&parts("a", "/responses")), Protocol::OpenAiResponses);
    assert_eq!(
        infer_from_parts(&parts("generativelanguage.googleapis.com", "/messages")),
        Protocol::Gemini
    );
    assert_eq!(
        infer_from_parts(&Some(UrlParts {
            host: None,
            path: "/messages".to_string()
        })),
        Protocol::Claude
    );
}

#[test]
fn a_gemini_endpoint_is_asked_for_the_model_of_the_configuration() {
    for base in ["https://generativelanguage.googleapis.com", "https://relay.example.com/v2"] {
        let full = endpoint(Protocol::Gemini, base, "a/models/b:c");
        assert_eq!(
            endpoint(Protocol::Gemini, &full, "gemini-3"),
            endpoint(Protocol::Gemini, base, "gemini-3")
        );
    }
    assert_eq!(
        endpoint(Protocol::Gemini, "https://relay.example.com/v2", "a/b:c"),
        "https://relay.example.com/v2/models/a%2Fb%3Ac:streamGenerateContent?alt=sse"
    );
}

#[test]
fn an_endpoint_leads_back_to_its_base() {
    for protocol in [
        Protocol::OpenAiChat,
        Protocol::OpenAiResponses,
        Protocol::Claude,
        Protocol::Jev,
    ] {
        for base in ["https://api.example.com", "https://relay.example.com/path", ""] {
            let full = endpoint(protocol, base, "m");
            assert_eq!(normalize_base(&full), base);
            assert_eq!(endpoint(protocol, &full, "m"), full);
        }
    }
}

#[test]
fn a_version_is_given_once() {
    for protocol in Protocol::ALL {
        for url in [
            "https://api.example.com",
            " https://api.example.com/v1/messages/ ",
            "https://api.example.com/V2beta",
            "",
        ] {
            let once = versioned_base(protocol, url);
            assert!(has_version_segment(&once));
            assert_eq!(versioned_base(protocol, &once), once);
        }
    }
}
