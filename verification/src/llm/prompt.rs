//! The prompts.
use crate::text;
use vstd::prelude::*;
use vstd::string::*;

verus! {

broadcast use {vstd::seq_lib::group_seq_properties, vstd::string::group_string_axioms};

/// A text in quotes as `Debug` writes it.
pub uninterp spec fn quoted(text: Seq<char>) -> Seq<char>;

/// Calls `format!("{:?}", ..)` on a text: what `Debug` for `str` writes, which depends on
/// the text alone.
#[verifier::external_body]
fn quote(text: &str) -> (r: String)
    ensures
        r@ == quoted(text@),
{
    format!("{:?}", text)
}

/// A list of texts in brackets, each in quotes.
pub open spec fn quoted_list(list: Seq<Seq<char>>) -> Seq<char> {
    "["@ + text::join(list.map_values(|item: Seq<char>| quoted(item)), ", "@) + "]"@
}

/// A question and its options as text.
pub open spec fn chat_prompt(question: Seq<char>, options: Seq<Seq<char>>) -> Seq<char> {
    "题目:"@ + question + "\n答案:"@ + quoted_list(options)
}

/// What the model is told to be.
pub open spec fn system_prompt(categories: Seq<Seq<char>>) -> Seq<char> {
    "你是一个资深B站用户，目前正在完成硬核会员试炼考试，考试内容涉及的分区：["@ + (if categories.len() == 0 {
        "未知"@
    } else {
        text::join(categories, "、"@)
    }) + "]，面对选择题时，直接根据问题和选项判断正确答案，并返回对应选项的序号（1, 2, 3, 4）。示例：\n问题：大的反义词是什么？\n选项：['长', '宽', '小', '热']\n回答：3\n如果不确定正确答案，选择最接近的选项序号返回，不提供额外解释或超出 1-4 的内容。"@
}

/// What the model is asked.
pub open spec fn question_text(question: Seq<char>, thinking: bool) -> Seq<char> {
    if thinking {
        question
    } else {
        "不要思考，直接回答我的问题："@ + question
    }
}

/// System prompt and question in one text.
pub open spec fn quiz_prompt(
    categories: Seq<Seq<char>>,
    question: Seq<char>,
    thinking: bool,
) -> Seq<char> {
    system_prompt(categories) + "\n---\n"@ + question_text(question, thinking)
}

/// Puts a question and its options into plain text.
pub fn build_chat_prompt(question: &str, options: &[String]) -> (r: String)
    ensures
        r@ == chat_prompt(question@, text::texts(options@)),
{
    let ghost wanted = text::texts(options@).map_values(|item: Seq<char>| quoted(item));
    let mut items: Vec<String> = Vec::new();
    let mut i: usize = 0;
    while i < options.len()
        invariant
            i <= options@.len(),
            wanted == text::texts(options@).map_values(|item: Seq<char>| quoted(item)),
            text::texts(items@) == wanted.take(i as int),
        decreases options@.len() - i,
    {
        let ghost before = text::texts(items@);
        let item = quote(options[i].as_str());
        items.push(item);
        assert(text::texts(items@) =~= before.push(item@));
        assert(wanted.take(i + 1) =~= before.push(item@));
        i += 1;
    }
    assert(wanted.take(i as int) =~= wanted);
    let mut r = text::concat("题目:", question);
    r.append("\n答案:");
    let ghost head = r@;
    r.append("[");
    r.append(text::joined(&items, ", ").as_str());
    r.append("]");
    assert(r@ =~= head + quoted_list(text::texts(options@)));
    r
}

/// What the model is told to be.
fn build_system_prompt(categories: &[String]) -> (r: String)
    ensures
        r@ == system_prompt(text::texts(categories@)),
{
    let mut r =
        "你是一个资深B站用户，目前正在完成硬核会员试炼考试，考试内容涉及的分区：[".to_owned();
    if categories.len() == 0 {
        r.append("未知");
    } else {
        r.append(text::joined(categories, "、").as_str());
    }
    r.append(
        "]，面对选择题时，直接根据问题和选项判断正确答案，并返回对应选项的序号（1, 2, 3, 4）。示例：\n问题：大的反义词是什么？\n选项：['长', '宽', '小', '热']\n回答：3\n如果不确定正确答案，选择最接近的选项序号返回，不提供额外解释或超出 1-4 的内容。",
    );
    r
}

/// What the model is asked.
fn build_question_text(question: &str, enable_thinking: bool) -> (r: String)
    ensures
        r@ == question_text(question@, enable_thinking),
{
    if enable_thinking {
        question.to_owned()
    } else {
        text::concat("不要思考，直接回答我的问题：", question)
    }
}

/// System prompt and question in one text, for the protocols that take a single message.
pub fn build_quiz_prompt(categories: &[String], question: &str, enable_thinking: bool) -> (r:
    String)
    ensures
        r@ == quiz_prompt(text::texts(categories@), question@, enable_thinking),
{
    let mut r = build_system_prompt(categories);
    r.append("\n---\n");
    r.append(build_question_text(question, enable_thinking).as_str());
    r
}

/// System prompt and question apart, for the protocols that have a field for each.
pub fn build_split_prompt(categories: &[String], question: &str, enable_thinking: bool) -> (r: (
    String,
    String,
))
    ensures
        r.0@ == system_prompt(text::texts(categories@)),
        r.1@ == question_text(question@, enable_thinking),
{
    (build_system_prompt(categories), build_question_text(question, enable_thinking))
}

/// Every prompt ends with the question and names the categories in brackets.
pub proof fn law_prompt_holds_question_and_categories(
    categories: Seq<Seq<char>>,
    question: Seq<char>,
    thinking: bool,
)
    ensures
        question.is_suffix_of(question_text(question, thinking)),
        question.is_suffix_of(quiz_prompt(categories, question, thinking)),
        ({
            let named = if categories.len() == 0 {
                "未知"@
            } else {
                text::join(categories, "、"@)
            };
            &&& text::contains(system_prompt(categories), "["@ + named + "]"@)
            &&& text::contains(
                quiz_prompt(categories, question, thinking),
                "["@ + named + "]"@,
            )
        }),
{
    let named = if categories.len() == 0 {
        "未知"@
    } else {
        text::join(categories, "、"@)
    };
    let start = "你是一个资深B站用户，目前正在完成硬核会员试炼考试，考试内容涉及的分区：["@;
    let rest = "]，面对选择题时，直接根据问题和选项判断正确答案，并返回对应选项的序号（1, 2, 3, 4）。示例：\n问题：大的反义词是什么？\n选项：['长', '宽', '小', '热']\n回答：3\n如果不确定正确答案，选择最接近的选项序号返回，不提供额外解释或超出 1-4 的内容。"@;
    reveal_strlit("[");
    reveal_strlit("]");
    reveal_strlit("你是一个资深B站用户，目前正在完成硬核会员试炼考试，考试内容涉及的分区：[");
    reveal_strlit("]，面对选择题时，直接根据问题和选项判断正确答案，并返回对应选项的序号（1, 2, 3, 4）。示例：\n问题：大的反义词是什么？\n选项：['长', '宽', '小', '热']\n回答：3\n如果不确定正确答案，选择最接近的选项序号返回，不提供额外解释或超出 1-4 的内容。");
    let system = system_prompt(categories);
    let asked = question_text(question, thinking);
    let whole = quiz_prompt(categories, question, thinking);
    let part = "["@ + named + "]"@;
    let at = start.len() - 1;
    assert(system =~= start + named + rest);
    assert(system.subrange(at, at + part.len()) =~= part);
    assert(text::occurs_at(system, part, at));
    assert(whole.subrange(at, at + part.len()) =~= part);
    assert(text::occurs_at(whole, part, at));
    assert(asked.subrange(asked.len() - question.len(), asked.len() as int) =~= question);
    assert(whole.subrange(whole.len() - question.len(), whole.len() as int) =~= question);
}

} // verus!
