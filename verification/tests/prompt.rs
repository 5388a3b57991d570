use bili_hardcore::llm::prompt::{build_chat_prompt, build_quiz_prompt, build_split_prompt};

#[test]
fn chat_prompt_keeps_single_user_message_shape() {
    let prompt = build_quiz_prompt(&["科技".to_string()], "题目:1+1\n答案:[1,2]", false);
    assert!(prompt.contains("[科技]"));
    assert!(prompt.ends_with("\n---\n不要思考，直接回答我的问题：题目:1+1\n答案:[1,2]"));

    let thinking = build_quiz_prompt(&[], "题目:1+1", true);
    assert!(thinking.ends_with("\n---\n题目:1+1"));
    assert!(thinking.contains("[未知]"));
}

#[test]
fn split_prompt_separates_system_and_question() {
    let (system, user) = build_split_prompt(&["生活".to_string()], "题目:1+1", true);
    assert!(system.contains("[生活]"));
    assert!(system.contains("你是一个资深B站用户"));
    assert_eq!(user, "题目:1+1");

    let (_, user) = build_split_prompt(&[], "题目:1+1", false);
    assert_eq!(user, "不要思考，直接回答我的问题：题目:1+1");
}

#[test]
fn options_are_quoted_in_a_list() {
    assert_eq!(
        build_chat_prompt("1+1", &["2".to_string(), "a \"b\"\n".to_string()]),
        "题目:1+1\n答案:[\"2\", \"a \\\"b\\\"\\n\"]"
    );
    assert_eq!(build_chat_prompt("", &[]), "题目:\n答案:[]");
}

#[test]
fn the_system_prompt_is_written_out_in_full() {
    let (system, _) = build_split_prompt(&["甲".to_string(), "乙".to_string()], "", true);
    assert_eq!(
        system,
        "你是一个资深B站用户，目前正在完成硬核会员试炼考试，考试内容涉及的分区：[甲、乙]，面对选择题时，直接根据问题和选项判断正确答案，并返回对应选项的序号（1, 2, 3, 4）。示例：\n\
         问题：大的反义词是什么？\n\
         选项：['长', '宽', '小', '热']\n\
         回答：3\n\
         如果不确定正确答案，选择最接近的选项序号返回，不提供额外解释或超出 1-4 的内容。"
    );
}
