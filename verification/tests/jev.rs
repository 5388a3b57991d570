use bili_hardcore::config::OpenAiConfig;
use bili_hardcore::json::Json;
use bili_hardcore::llm::providers::jev::{
    backoff_delay, build_request_body, describe_status, is_jev_endpoint, parse_choice,
    parse_retry_after, JevClient, JevStart,
};
use bili_hardcore::llm::LlmChunk;

fn json(text: &str) -> Json {
    Json::parse(text).unwrap()
}

/// The value at the end of a path of keys and places; null where there is none.
fn at<'a>(value: &'a Json, path: &[&str]) -> &'a Json {
    let mut value = value;
    for step in path {
        value = match value {
            Json::Array(items) => &items[step.parse::<usize>().unwrap()],
            _ => value.get(step).unwrap_or(&Json::Null),
        };
    }
    value
}

fn options() -> Vec<String> {
    ["长", "宽", "小", "热"]
        .iter()
        .map(|s| s.to_string())
        .collect()
}

#[test]
fn detects_jev_by_official_host_and_by_endpoint_path() {
    assert!(is_jev_endpoint("https://api.typesafe.ai/v1/systemone"));
    assert!(is_jev_endpoint("https://API.TypeSafe.AI/v1/systemone"));
    assert!(is_jev_endpoint("https://relay.example.com/v1/systemone/"));
    assert!(is_jev_endpoint(
        "https://relay.example.com/typesafe/systemone"
    ));

    assert!(!is_jev_endpoint(
        "https://api.openai.com/v1/chat/completions"
    ));
    assert!(!is_jev_endpoint("https://api.x.ai/v1/chat/completions"));
    assert!(!is_jev_endpoint(
        "https://relay.example.com/v1/chat/completions"
    ));
    assert!(!is_jev_endpoint("not a url"));
}

#[test]
fn request_body_uses_choice_question_with_indexed_criteria() {
    let body = build_request_body("jev-latest", "大的反义词是什么？", &options(), &[]);
    assert_eq!(at(&body, &["model"]).as_str(), Some("jev-latest"));
    assert_eq!(at(&body, &["state", "question"]).as_str(), Some("大的反义词是什么？"));
    assert!(at(&body, &["state"]).get("categories").is_none());

    let question = at(&body, &["questions", "answer"]);
    assert_eq!(at(&question, &["type"]).as_str(), Some("choice"));
    assert!(
        at(&question, &["instructions"])
            .as_str()
            .unwrap()
            .contains("`question`")
    );
    assert_eq!(at(&question, &["criteria", "1"]).as_str(), Some("长"));
    assert_eq!(at(&question, &["criteria", "2"]).as_str(), Some("宽"));
    assert_eq!(at(&question, &["criteria", "3"]).as_str(), Some("小"));
    assert_eq!(at(&question, &["criteria", "4"]).as_str(), Some("热"));
    assert_eq!(at(&question, &["criteria"]).as_object().unwrap().len(), 4);
}

#[test]
fn request_body_includes_selected_categories() {
    let body = build_request_body(
        "jev-latest",
        "题目",
        &options(),
        &["科技".to_string(), "生活".to_string()],
    );
    assert_eq!(at(&body, &["state", "categories", "0"]).as_str(), Some("科技"));
    assert_eq!(at(&body, &["state", "categories", "1"]).as_str(), Some("生活"));
}

#[test]
fn parses_documented_choice_answer() {
    let value = json(r#"{
        "model": "jev-1.13.0",
        "answers": {
            "answer": {
                "type": "choice",
                "choice": "3",
                "probabilities": {"1": 0.04, "2": 0.05, "3": 0.88, "4": 0.03},
                "confidence": 0.81
            }
        },
        "usage": { "input_tokens": 318, "output_tokens": 34 }
    }"#);
    let choice = parse_choice(&value, 4).expect("应解析出选项");
    assert_eq!(choice.index, 3);
    assert_eq!(choice.model, "jev-1.13.0");
    assert_eq!(
        choice.confidence.as_ref().map(|number| number.decimal.parse::<f64>().unwrap()),
        Some(0.81)
    );
    assert_eq!(choice.input_tokens, Some(318));
    assert_eq!(choice.probabilities.len(), 4);

    let summary = choice.summary();
    assert!(summary.contains("jev-1.13.0"));
    assert!(summary.contains("0.81"));
    assert!(summary.contains("1:0.04"));
    assert!(summary.contains("4:0.03"));
}

#[test]
fn rejects_out_of_range_missing_and_wrong_type_answers() {
    let out_of_range = json(r#"{
        "answers": {"answer": {"type": "choice", "choice": "5"}}
    }"#);
    assert!(parse_choice(&out_of_range, 4).is_err());

    let missing = json(r#"{"model": "jev-1.13.0", "usage": {}}"#);
    assert!(parse_choice(&missing, 4).is_err());

    let wrong_type = json(r#"{
        "answers": {"answer": {"type": "noul", "noul": 0.9}}
    }"#);
    assert!(parse_choice(&wrong_type, 4).is_err());

    let non_numeric = json(r#"{
        "answers": {"answer": {"type": "choice", "choice": "third"}}
    }"#);
    assert!(parse_choice(&non_numeric, 4).is_err());
}

#[test]
fn choice_answer_without_optional_fields_still_yields_an_index() {
    let value = json(r#"{
        "answers": {"answer": {"type": "choice", "choice": "2"}}
    }"#);
    let choice = parse_choice(&value, 4).expect("最小响应也应可用");
    assert_eq!(choice.index, 2);
    assert_eq!(choice.confidence, None);
    assert!(choice.probabilities.is_empty());
    assert_eq!(choice.model, "unknown");
}

#[test]
fn backoff_doubles_and_prefers_retry_after_within_cap() {
    assert_eq!(backoff_delay(0, None), 2);
    assert_eq!(backoff_delay(1, None), 4);
    assert_eq!(backoff_delay(2, None), 8);
    assert_eq!(
        backoff_delay(0, Some(1)),
        1
    );
    assert_eq!(
        backoff_delay(0, Some(999)),
        30,
        "retry-after 超过上限时按上限等待"
    );
}

#[test]
fn maps_documented_error_statuses_to_hints() {
    assert_eq!(
        describe_status(401),
        "API Key 无效或缺失"
    );
    assert_eq!(
        describe_status(422),
        "请求体未通过校验"
    );
    assert_eq!(
        describe_status(429),
        "超出速率限制"
    );
    assert_eq!(
        describe_status(529),
        "服务端过载"
    );
}

#[test]
fn each_flaw_of_an_answer_has_its_own_message() {
    let message = |text: &str| parse_choice(&json(text), 4).unwrap_err();
    assert_eq!(message(r#"{"answers": {"answer": 3}}"#), "JEV 响应缺少 answers.answer");
    assert_eq!(
        message(r#"{"answers": {"answer": {"type": "noul"}}}"#),
        "JEV 返回了非 choice 答案类型: noul"
    );
    assert_eq!(
        message(r#"{"answers": {"answer": {"choice": 3}}}"#),
        "JEV 响应缺少 answers.answer.choice"
    );
    assert_eq!(
        message(r#"{"answers": {"answer": {"choice": "third"}}}"#),
        "JEV 返回了无法解析的选项: third"
    );
    assert_eq!(
        message(r#"{"answers": {"answer": {"choice": "0"}}}"#),
        "JEV 返回的选项 0 超出有效范围 1-4"
    );
    assert_eq!(
        message(r#"{"answers": {"answer": {"choice": "99999999999999999999"}}}"#),
        "JEV 返回了无法解析的选项: 99999999999999999999"
    );
}

#[test]
fn a_summary_lists_the_options_in_order() {
    let value = json(
        r#"{
            "answers": {"answer": {
                "choice": " 2 ",
                "probabilities": {"10": 1, "9": 0.25, "2": 0.5, "0": 0.1, "x": 0.1, "3": "no"},
                "confidence": 1
            }}
        }"#,
    );
    let choice = parse_choice(&value, 10).unwrap();
    assert_eq!(choice.index, 2);
    assert_eq!(
        choice.summary(),
        "JEV unknown｜置信度 1.00｜选项概率 2:0.50 9:0.25 10:1.00"
    );
    let bare = parse_choice(&json(r#"{"answers": {"answer": {"choice": "1"}}}"#), 1).unwrap();
    assert_eq!(bare.summary(), "JEV unknown｜");
}

#[test]
fn the_number_of_an_option_leads_back_to_it() {
    let body = build_request_body("m", "q", &options(), &[]);
    for (index, option) in options().iter().enumerate() {
        let number = (index + 1).to_string();
        assert_eq!(
            at(&body, &["questions", "answer", "criteria", &number]).as_str(),
            Some(option.as_str())
        );
        let reply = json(&format!(r#"{{"answers": {{"answer": {{"choice": "{number}"}}}}}}"#));
        assert_eq!(parse_choice(&reply, 4).unwrap().index, index + 1);
    }
}

#[test]
fn only_seconds_are_read_from_retry_after() {
    assert_eq!(parse_retry_after(Some(" 12 ")), Some(12));
    assert_eq!(parse_retry_after(Some("+7")), Some(7));
    assert_eq!(parse_retry_after(Some("Wed, 21 Oct 2015 07:28:00 GMT")), None);
    assert_eq!(parse_retry_after(Some("-1")), None);
    assert_eq!(parse_retry_after(Some("")), None);
    assert_eq!(parse_retry_after(None), None);
    assert_eq!(backoff_delay(31, None), 4_294_967_296);
    assert_eq!(describe_status(500), "未知错误");
}

#[test]
fn a_question_without_options_is_not_asked() {
    let client = JevClient::new(&OpenAiConfig {
        base_url: "https://api.typesafe.ai/v1/systemone//".to_string(),
        model: "jev-latest".to_string(),
        api_key: "k1".to_string(),
        enable_thinking: false,
        reasoning_effort: String::new(),
    });
    assert_eq!(client.endpoint, "https://api.typesafe.ai/v1/systemone");
    match client.ask("题目", &[], &[]) {
        JevStart::Refused(chunks) => assert_eq!(
            chunks,
            vec![LlmChunk::Error("JEV 无法作答：题目没有可选项".to_string())]
        ),
        JevStart::Asked(..) => panic!("nothing to choose from"),
    }
    match client.ask("题目", &options(), &[]) {
        JevStart::Asked(request, exchange) => {
            assert_eq!(request.url, "https://api.typesafe.ai/v1/systemone");
            assert_eq!(
                request.headers,
                vec![
                    ("Content-Type".to_string(), "application/json".to_string()),
                    ("Authorization".to_string(), "Bearer k1".to_string()),
                ]
            );
            assert_eq!(exchange.option_count, 4);
        }
        JevStart::Refused(_) => panic!("there are options"),
    }
}
