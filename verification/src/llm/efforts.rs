//! What holds of the efforts that the protocols are asked for.
use crate::text;
use vstd::prelude::*;
use vstd::string::*;

verus! {

broadcast use {vstd::seq_lib::group_seq_properties, vstd::string::group_string_axioms};

/// Whether xAI knows an effort.
pub open spec fn xai_knows(effort: Seq<char>) -> bool {
    effort == "low"@ || effort == "medium"@ || effort == "high"@ || effort == "xhigh"@
}

/// Whether OpenAI knows an effort in Responses.
pub open spec fn openai_knows(effort: Seq<char>) -> bool {
    effort == "minimal"@ || effort == "low"@ || effort == "medium"@ || effort == "high"@
}

/// Whether Anthropic knows an effort.
pub open spec fn anthropic_knows(effort: Seq<char>) -> bool {
    xai_knows(effort) || effort == "max"@
}

/// Whether Gemini knows a level.
pub open spec fn gemini_knows(level: Seq<char>) -> bool {
    openai_knows(level)
}

/// Whatever effort is saved, a service is asked for one that it knows.
pub proof fn law_effort_is_known(thinking: bool, saved: Seq<char>)
    ensures
        xai_knows(super::providers::openai_chat::xai_effort(thinking, saved)),
        xai_knows(super::providers::openai_responses::effort_of(true, thinking, saved)),
        openai_knows(super::providers::openai_responses::effort_of(false, thinking, saved)),
        anthropic_knows(super::providers::claude::effort_of(thinking, saved)),
        gemini_knows(super::providers::gemini::level_of(thinking, saved)),
{
}

/// Without thinking the saved effort does not matter: the least that a service has for all
/// its models is asked for.
pub proof fn law_least_effort_without_thinking(saved: Seq<char>)
    ensures
        super::providers::openai_chat::xai_effort(false, saved) == "low"@,
        super::providers::openai_responses::effort_of(true, false, saved) == "low"@,
        super::providers::openai_responses::effort_of(false, false, saved) == "minimal"@,
        super::providers::claude::effort_of(false, saved) == "low"@,
        super::providers::gemini::level_of(false, saved) == "low"@,
{
}

/// An effort that no service knows counts as `high`.
pub proof fn law_unknown_effort_is_high(saved: Seq<char>)
    requires
        ({
            let effort = text::lower(text::trim(saved));
            !anthropic_knows(effort) && !openai_knows(effort)
        }),
    ensures
        super::providers::openai_chat::xai_effort(true, saved) == "high"@,
        super::providers::openai_responses::effort_of(true, true, saved) == "high"@,
        super::providers::openai_responses::effort_of(false, true, saved) == "high"@,
        super::providers::claude::effort_of(true, saved) == "high"@,
        super::providers::gemini::level_of(true, saved) == "high"@,
{
    lemma_names_are_lower();
}

pub(crate) proof fn lemma_names_are_lower()
    ensures
        text::lower("low"@) == "low"@,
        text::lower("medium"@) == "medium"@,
        text::lower("high"@) == "high"@,
        text::lower("max"@) == "max"@,
        text::lower("xhigh"@) == "xhigh"@,
{
    reveal_strlit("low");
    reveal_strlit("medium");
    reveal_strlit("high");
    reveal_strlit("max");
    reveal_strlit("xhigh");
    assert(text::lower("low"@) =~= "low"@);
    assert(text::lower("medium"@) =~= "medium"@);
    assert(text::lower("high"@) =~= "high"@);
    assert(text::lower("max"@) =~= "max"@);
    assert(text::lower("xhigh"@) =~= "xhigh"@);
}

/// How much an effort asks of Anthropic.
pub open spec fn height(effort: Seq<char>) -> int {
    if effort == "low"@ {
        0
    } else if effort == "medium"@ {
        1
    } else if effort == "high"@ {
        2
    } else {
        3
    }
}

/// With more effort the bound on thinking and answer together is never lower, and without
/// thinking it is the lowest.
pub proof fn law_more_effort_has_more_room(saved: Seq<char>, more: Seq<char>)
    requires
        height(super::providers::claude::effort_of(true, saved)) <= height(
            super::providers::claude::effort_of(true, more),
        ),
    ensures
        super::providers::claude::token_bound(true, saved)
            <= super::providers::claude::token_bound(true, more),
        super::providers::claude::token_bound(false, more)
            < super::providers::claude::token_bound(true, saved),
{
    reveal_strlit("low");
    reveal_strlit("medium");
    reveal_strlit("high");
    reveal_strlit("max");
    reveal_strlit("xhigh");
    assert("low"@.len() == 3 && "medium"@.len() == 6 && "high"@.len() == 4 && "xhigh"@.len() == 5);
    assert("low"@[0] == 'l' && "max"@[0] == 'm');
}

/// Chat Completions and Responses tell xAI by the same signs; OpenAI's own host alone is
/// never taken for xAI by the former.
pub proof fn law_xai_is_told_alike(host: Option<Seq<char>>, model: Seq<char>)
    requires
        host != Some("api.openai.com"@),
    ensures
        (super::providers::openai_chat::dialect_of(host, model) is XAi)
            == super::providers::openai_responses::asks_xai(host, model),
{
}

} // verus!
