use bili_hardcore::json::Json;
use bili_hardcore::llm::models::{
    choose_models, describe_http_error, fetch_models, filter_models, models_url, next_cursor,
    next_url, page_count, parse_list, FetchStep, ModelEntry, MODELS_PER_PAGE,
};
use bili_hardcore::llm::protocol::Protocol;

fn json(text: &str) -> Json {
    Json::parse(text).unwrap()
}

#[test]
fn builds_each_protocols_documented_models_endpoint() {
    assert_eq!(
        models_url(Protocol::OpenAiChat, "https://api.openai.com"),
        "https://api.openai.com/v1/models"
    );
    assert_eq!(
        models_url(Protocol::OpenAiResponses, "https://api.openai.com"),
        "https://api.openai.com/v1/models"
    );
    assert_eq!(
        models_url(Protocol::Jev, "https://api.typesafe.ai"),
        "https://api.typesafe.ai/v1/models"
    );
    assert_eq!(
        models_url(Protocol::Claude, "https://api.anthropic.com"),
        "https://api.anthropic.com/v1/models?limit=1000"
    );
    assert_eq!(
        models_url(Protocol::Gemini, "https://generativelanguage.googleapis.com"),
        "https://generativelanguage.googleapis.com/v1beta/models?pageSize=1000"
    );
    assert_eq!(
        models_url(
            Protocol::GeminiInteractions,
            "https://generativelanguage.googleapis.com"
        ),
        "https://generativelanguage.googleapis.com/v1beta/models?pageSize=1000"
    );
}

#[test]
fn openai_gets_no_pagination_parameters() {
    let url = models_url(Protocol::OpenAiChat, "https://api.openai.com");
    assert!(!url.contains('?'));
}

#[test]
fn endpoints_follow_the_same_base_rules_as_ask() {
    assert_eq!(
        models_url(Protocol::OpenAiChat, "https://open.bigmodel.cn/api/paas/v4"),
        "https://open.bigmodel.cn/api/paas/v4/models"
    );
    assert_eq!(
        models_url(Protocol::Claude, "https://relay.example.com/v1"),
        "https://relay.example.com/v1/models?limit=1000"
    );
    assert_eq!(
        models_url(Protocol::Jev, "http://192.168.0.2:3000/v1/systemone"),
        "http://192.168.0.2:3000/v1/models"
    );
}

#[test]
fn model_list_lands_on_the_same_version_prefix_as_ask() {
    assert_eq!(
        models_url(Protocol::OpenAiChat, "https://relay.example.com/v2"),
        "https://relay.example.com/v2/models"
    );
    assert_eq!(
        models_url(Protocol::OpenAiResponses, "https://relay.example.com/v3"),
        "https://relay.example.com/v3/models"
    );
    assert_eq!(
        next_url(
            Protocol::Claude,
            "https://relay.example.com/v2",
            "anthropic-x"
        ),
        "https://relay.example.com/v2/models?limit=1000&after_id=anthropic-x"
    );
    assert_eq!(
        next_url(Protocol::Gemini, "https://relay.example.com/v1beta", "tok"),
        "https://relay.example.com/v1beta/models?pageSize=1000&pageToken=tok"
    );
}

#[test]
fn parses_openai_list_shape() {
    let value = json(r#"{
        "object": "list",
        "data": [
            {"id": "gpt-5.4-nano", "object": "model", "owned_by": "openai"},
            {"id": "gpt-5.4", "object": "model", "owned_by": "openai"}
        ]
    }"#);
    let models = parse_list(&value);
    assert_eq!(models.len(), 2);
    assert_eq!(models[0].id, "gpt-5.4-nano");
    assert_eq!(models[0].label, "gpt-5.4-nano");
}

#[test]
fn parses_claude_list_shape_with_display_name() {
    let value = json(r#"{
        "data": [{"id": "anthropic-sonnet-5", "display_name": "Anthropic Sonnet 5", "type": "model"}],
        "has_more": false
    }"#);
    let models = parse_list(&value);
    assert_eq!(models[0].id, "anthropic-sonnet-5");
    assert_eq!(models[0].label, "Anthropic Sonnet 5");
}

#[test]
fn parses_gemini_list_shape_stripping_prefix_and_filtering_methods() {
    let value = json(r#"{
        "models": [
            {
                "name": "models/gemini-3-flash-preview",
                "displayName": "Gemini 3 Flash",
                "description": "frontier",
                "supportedGenerationMethods": ["generateContent", "countTokens"]
            },
            {
                "name": "models/text-embedding-004",
                "displayName": "Embedding",
                "supportedGenerationMethods": ["embedContent"]
            }
        ],
        "nextPageToken": "tok"
    }"#);
    let models = parse_list(&value);
    assert_eq!(models.len(), 1, "只支持 generateContent 的模型应被过滤掉");
    assert_eq!(models[0].id, "gemini-3-flash-preview", "要剥掉 models/ 前缀");
    assert_eq!(models[0].label, "Gemini 3 Flash");
    assert_eq!(models[0].detail.as_deref(), Some("frontier"));
}

#[test]
fn parses_jev_list_shape_without_prefix() {
    let value = json(r#"{
        "models": [
            {"name": "jev-latest", "description": "always newest", "release_date": "2026-09-15"},
            {"name": "jev-1.13.0", "description": "pinned", "release_date": "2026-09-11"}
        ]
    }"#);
    let models = parse_list(&value);
    assert_eq!(models.len(), 2);
    assert_eq!(models[0].id, "jev-latest", "JEV 名字不带前缀，不能动它");
    assert_eq!(models[0].label, "jev-latest", "JEV 没有 displayName，退回 id");
    assert_eq!(models[0].detail.as_deref(), Some("always newest"));
}

#[test]
fn skips_entries_without_usable_names() {
    let value = json(r#"{
        "models": [{"displayName": "no name"}, {"name": ""}, {"name": "models/ok"}]
    }"#);
    let models = parse_list(&value);
    assert_eq!(models.len(), 1);
    assert_eq!(models[0].id, "ok");
}

#[test]
fn unknown_shapes_yield_nothing_rather_than_panicking() {
    assert!(parse_list(&json(r#"{}"#)).is_empty());
    assert!(parse_list(&json(r#"{"error": {}}"#)).is_empty());
    assert!(parse_list(&json(r#"[1, 2, 3]"#)).is_empty());
}

#[test]
fn cursors_only_continue_when_there_is_more() {
    let claude_more = json(r#"{"data": [], "has_more": true, "last_id": "anthropic-x"}"#);
    assert_eq!(
        next_cursor(Protocol::Claude, &claude_more).as_deref(),
        Some("anthropic-x")
    );
    let claude_last = json(r#"{"data": [], "has_more": false, "last_id": "anthropic-x"}"#);
    assert_eq!(next_cursor(Protocol::Claude, &claude_last), None);

    let gemini = json(r#"{"models": [], "nextPageToken": "tok2"}"#);
    assert_eq!(next_cursor(Protocol::Gemini, &gemini).as_deref(), Some("tok2"));
    let gemini_last = json(r#"{"models": []}"#);
    assert_eq!(next_cursor(Protocol::Gemini, &gemini_last), None);

    let openai = json(r#"{"data": [{"id": "m"}], "has_more": true, "last_id": "m"}"#);
    assert_eq!(next_cursor(Protocol::OpenAiChat, &openai), None);
    assert_eq!(next_cursor(Protocol::Jev, &openai), None);
}

#[test]
fn next_url_encodes_the_cursor() {
    assert_eq!(
        next_url(Protocol::Claude, "https://api.anthropic.com", "anthropic a/b"),
        "https://api.anthropic.com/v1/models?limit=1000&after_id=anthropic%20a%2Fb"
    );
    assert_eq!(
        next_url(Protocol::Gemini, "https://generativelanguage.googleapis.com", "a b"),
        "https://generativelanguage.googleapis.com/v1beta/models?pageSize=1000&pageToken=a%20b"
    );
    assert_eq!(next_url(Protocol::OpenAiChat, "https://api.openai.com", "x"), "");
}

#[test]
fn filter_matches_id_and_label_case_insensitively() {
    let models = vec![
        ModelEntry {
            id: "anthropic-sonnet-5".to_string(),
            label: "Anthropic Sonnet 5".to_string(),
            detail: None,
        },
        ModelEntry {
            id: "gemini-3-flash-preview".to_string(),
            label: "Gemini 3 Flash".to_string(),
            detail: None,
        },
        ModelEntry {
            id: "jev-latest".to_string(),
            label: "jev-latest".to_string(),
            detail: None,
        },
    ];

    assert_eq!(filter_models(&models, "").len(), 3);
    assert_eq!(filter_models(&models, "   ").len(), 3);
    assert_eq!(filter_models(&models, "ANTHROPIC").len(), 1, "展示名要能搜到");
    assert_eq!(filter_models(&models, "flash").len(), 1);
    assert_eq!(filter_models(&models, "3").len(), 1, "片段匹配");
    assert_eq!(filter_models(&models, "Sonnet").len(), 1);
    assert!(filter_models(&models, "不存在").is_empty());
}

#[test]
fn pages_hold_twenty_entries() {
    assert_eq!(MODELS_PER_PAGE, 20);
    assert_eq!(page_count(0), 0);
    assert_eq!(page_count(1), 1);
    assert_eq!(page_count(20), 1);
    assert_eq!(page_count(21), 2);
    assert_eq!(page_count(200), 10);
    for (cursor, page) in [(0usize, 0usize), (19, 0), (20, 1), (21, 1), (199, 9)] {
        assert_eq!(cursor / MODELS_PER_PAGE, page, "cursor={cursor}");
    }
}

#[test]
fn missing_endpoint_and_bad_key_get_actionable_messages() {
    let not_found = describe_http_error(
        Protocol::GeminiInteractions,
        404,
        "<html>404</html>",
        "key",
    );
    assert!(not_found.contains("404"));
    assert!(not_found.contains("手动输入模型名"));
    assert!(!not_found.contains("key"));

    let unauthorized = describe_http_error(
        Protocol::Claude,
        401,
        "{}",
        "key",
    );
    assert!(unauthorized.contains("API Key"));
}

#[test]
fn names_in_lower_case_choose_the_models() {
    let models = vec![
        ModelEntry { id: "a".to_string(), label: "A".to_string(), detail: None },
        ModelEntry { id: "b".to_string(), label: "B".to_string(), detail: None },
    ];
    let names = [
        ("ä".to_string(), "xyz".to_string()),
        ("b".to_string(), "ß".to_string()),
    ];
    let ids = |needle: &str| -> Vec<&str> {
        choose_models(&models, &names, needle).into_iter().map(|model| model.id.as_str()).collect()
    };
    assert_eq!(ids("y"), ["a"]);
    assert_eq!(ids("ß"), ["b"]);
    assert_eq!(ids(""), ["a", "b"]);
    assert!(ids("q").is_empty());
}

#[test]
fn filters_know_letters_beyond_ascii() {
    let models = vec![ModelEntry { id: "É-1".to_string(), label: "x".to_string(), detail: None }];
    assert_eq!(filter_models(&models, " é ").len(), 1);
    assert_eq!(filter_models(&models, "e").len(), 0);
}

#[test]
fn refusals_quote_the_service_where_it_can_be_read() {
    assert_eq!(
        describe_http_error(Protocol::OpenAiChat, 500, r#"{"error": {"message": "boom"}}"#, "k"),
        "拉取 Chat Completions 模型列表失败 (HTTP 500 Internal Server Error): boom"
    );
    assert_eq!(
        describe_http_error(Protocol::Jev, 503, "down at http://a", "k"),
        "拉取 JEV 模型列表失败 (HTTP 503 Service Unavailable): down at [URL REDACTED]"
    );
    assert_eq!(
        describe_http_error(Protocol::Gemini, 403, "", "k"),
        "Gemini 拒绝了请求 (HTTP 403 Forbidden)，请检查 API Key"
    );
}

#[test]
fn a_list_is_fetched_page_by_page() {
    let mut fetch = fetch_models(Protocol::Claude, "https://api.anthropic.com", "k");
    assert_eq!(fetch.url, "https://api.anthropic.com/v1/models?limit=1000");
    assert_eq!(
        fetch.headers(),
        vec![
            ("x-api-key".to_string(), "k".to_string()),
            ("anthropic-version".to_string(), "2023-06-01".to_string()),
        ]
    );
    let first = br#"{"data": [{"id": "a"}], "has_more": true, "last_id": "a b"}"#;
    assert_eq!(fetch.page(200, first), FetchStep::More);
    assert_eq!(
        fetch.url,
        "https://api.anthropic.com/v1/models?limit=1000&after_id=a%20b"
    );
    let last = br#"{"data": [{"id": "b"}], "has_more": false}"#;
    match fetch.page(200, last) {
        FetchStep::Done(list) => {
            assert!(!list.truncated);
            let ids: Vec<&str> = list.models.iter().map(|model| model.id.as_str()).collect();
            assert_eq!(ids, ["a", "b"]);
        }
        other => panic!("{other:?}"),
    }
}

#[test]
fn a_list_ends_at_its_bounds() {
    let page = br#"{"data": [{"id": "a"}], "has_more": true, "last_id": "a"}"#;
    let mut fetch = fetch_models(Protocol::Claude, "https://a", "k");
    assert_eq!(fetch.page(200, page), FetchStep::More);
    assert_eq!(fetch.page(200, page), FetchStep::More);
    match fetch.page(200, page) {
        FetchStep::Done(list) => assert!(list.truncated && list.models.len() == 3),
        other => panic!("{other:?}"),
    }

    let entries: Vec<String> = (0..201).map(|i| format!(r#"{{"id": "m{i}"}}"#)).collect();
    let long = format!(r#"{{"data": [{}]}}"#, entries.join(","));
    let mut fetch = fetch_models(Protocol::OpenAiChat, "https://a", "k");
    match fetch.page(200, long.as_bytes()) {
        FetchStep::Done(list) => assert!(list.truncated && list.models.len() == 200),
        other => panic!("{other:?}"),
    }
}

#[test]
fn a_list_fails_with_its_reason() {
    let failed = |code: u16, bytes: &[u8]| {
        match fetch_models(Protocol::Jev, "https://a", "k").page(code, bytes) {
            FetchStep::Failed(message) => message,
            other => panic!("{other:?}"),
        }
    };
    assert_eq!(
        failed(200, br#"{"models": []}"#),
        "JEV 返回了空的模型列表，请确认该 Key 有权访问模型"
    );
    assert!(failed(404, b"").contains("手动输入模型名"));
    assert!(failed(200, b"<html>").starts_with("解析模型列表 JSON 失败: "));
    assert!(failed(200, b"<html>").ends_with("; 响应摘要: <html>"));
    assert_eq!(
        failed(200, &vec![b' '; 4 * 1024 * 1024 + 1]),
        "模型列表响应超过 4 MiB 限制"
    );
}

#[test]
fn a_filter_applied_twice_does_no_more() {
    let entry = |id: &str| ModelEntry {
        id: id.to_string(),
        label: id.to_uppercase(),
        detail: None,
    };
    let models = vec![entry("alpha"), entry("beta"), entry("gamma-beta")];
    let ids = |list: &[&ModelEntry]| -> Vec<String> {
        list.iter().map(|model| model.id.clone()).collect()
    };
    let once = filter_models(&models, " BeTa ");
    assert_eq!(ids(&once), ["beta", "gamma-beta"]);
    let kept = vec![entry("beta"), entry("gamma-beta")];
    assert_eq!(ids(&filter_models(&kept, "beta")), ids(&once));
}

#[test]
fn a_full_list_is_cut_only_where_there_is_more() {
    let entries: Vec<String> = (0..200).map(|i| format!(r#"{{"id": "m{i}"}}"#)).collect();
    let page = |rest: &str| format!(r#"{{"data": [{}]{rest}}}"#, entries.join(","));
    for (protocol, rest, cut) in [
        (Protocol::OpenAiChat, "", false),
        (Protocol::Claude, r#", "has_more": false, "last_id": "m199""#, false),
        (Protocol::Claude, r#", "has_more": true, "last_id": "m199""#, true),
    ] {
        let mut fetch = fetch_models(protocol, "https://a", "k");
        match fetch.page(200, page(rest).as_bytes()) {
            FetchStep::Done(list) => {
                assert_eq!(list.models.len(), 200);
                assert_eq!(list.truncated, cut);
            }
            other => panic!("{other:?}"),
        }
    }
}

#[test]
fn the_case_of_a_filter_does_not_matter() {
    let models = vec![
        ModelEntry {
            id: "GPT-5".to_string(),
            label: "gpt five".to_string(),
            detail: None,
        },
        ModelEntry {
            id: "jev".to_string(),
            label: "JEV".to_string(),
            detail: None,
        },
    ];
    for filter in ["gpt-5", " Five", "j", "-", "none"] {
        assert_eq!(
            filter_models(&models, filter),
            filter_models(&models, &filter.to_uppercase())
        );
    }
    assert_eq!(filter_models(&models, "GpT")[0].id, "GPT-5");
}
