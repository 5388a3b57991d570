//! What holds of what is shown and asked for after a key, page by page.
use crate::config::{ConfigView, PresetView};
use crate::llm::models::ModelView;
use crate::llm::protocol::Protocol;
use crate::state::{
    ActionView, AppView, CaptchaFocus, CaptchaView, CategoryView, ConfigFocus, HomeSelection,
    KeyCode, KeyEvent, Page, PhaseView, PreserveView,
};
use crate::text;
use vstd::prelude::*;
use vstd::string::*;

verus! {

broadcast use {vstd::seq_lib::group_seq_properties, vstd::string::group_string_axioms};

/// No action.
pub open spec fn no_action() -> Seq<ActionView> {
    Seq::<ActionView>::empty()
}

/// Where settings are stored, each of them is the one that the page shows: the switches for
/// thinking and for the fast mode, the model and the key in their fields, the base of the
/// address in the first field, the protocol, and the effort by its place. Nothing else
/// changes but that the address is shown by its base.
pub proof fn law_stored_settings_are_those_shown(
    x: AppView,
    key: KeyEvent,
    presets: Seq<PresetView>,
)
    requires
        x.wf(),
        x.key(key, presets).1.contains(ActionView::SaveConfig),
    ensures
        ({
            let (after, actions) = x.key(key, presets);
            &&& after.config matches Some(config)
            &&& config.enable_thinking == x.cfg_thinking
            &&& config.enable_fast_mode == x.cfg_fast_mode
            &&& config.model == x.cfg_fields[1]
            &&& config.api_key == x.cfg_fields[2]
            &&& config.base_url == crate::llm::protocol::base_of(x.cfg_fields[0])
            &&& config.protocol == Some(x.cfg_protocol)
            &&& x.cfg_effort == 0 ==> config.reasoning_effort == "low"@
            &&& x.cfg_effort == 1 ==> config.reasoning_effort == "high"@
            &&& x.cfg_effort == 2 ==> config.reasoning_effort == "max"@
            &&& after == (AppView {
                config: after.config,
                cfg_fields: x.cfg_fields.update(0, config.base_url),
                ..x
            })
            &&& actions == seq![
                ActionView::SaveConfig,
                ActionView::Back,
                ActionView::LoginOnQuiz,
            ]
        }),
{
    let (after, actions) = x.key(key, presets);
    let i = choose|i: int| 0 <= i < actions.len() && actions[i] == ActionView::SaveConfig;
    assert(actions[i] == ActionView::SaveConfig);
    assert(after.cfg_fields =~= x.cfg_fields.update(0, after.config->0.base_url));
}

/// Settings are stored whenever Enter is pressed on the button for it and address, model and
/// key are all there; where one is missing, nothing happens.
pub proof fn law_complete_settings_are_stored(x: AppView, control: bool, presets: Seq<PresetView>)
    requires
        x.on_rows(),
        x.cfg_focus is SaveBtn,
    ensures
        ({
            let (after, actions) = x.key(KeyEvent { code: KeyCode::Enter, control }, presets);
            let whole = crate::llm::protocol::base_of(x.cfg_fields[0]).len() > 0
                && x.cfg_fields[1].len() > 0 && x.cfg_fields[2].len() > 0;
            &&& whole ==> actions.contains(ActionView::SaveConfig)
            &&& !whole ==> after == x && actions == no_action()
        }),
{
    let (after, actions) = x.key(KeyEvent { code: KeyCode::Enter, control }, presets);
    if actions.len() > 0 {
        assert(actions[0] == ActionView::SaveConfig);
    }
}

/// Whether the settings page was opened on a state: it shows the settings that are in force,
/// with the cursor at the end of each field; where there are none, the presets are offered.
pub open spec fn is_settings_page_of(x: AppView, after: AppView) -> bool {
    &&& x.config matches Some(config) ==> after.cfg_fields == seq![
        config.base_url,
        config.model,
        config.api_key,
    ] && after.cfg_protocol == config.spoken() && after.cfg_preset_open == x.cfg_preset_open
        && after.cfg_preset_sel == x.cfg_preset_sel
    &&& x.config is None ==> after.cfg_fields == x.cfg_fields && after.cfg_protocol
        == x.cfg_protocol && after.cfg_preset_open && after.cfg_preset_sel == 0
    &&& after.cfg_cursors == seq![
        text::bytes_of(after.cfg_fields[0]).len() as usize,
        text::bytes_of(after.cfg_fields[1]).len() as usize,
        text::bytes_of(after.cfg_fields[2]).len() as usize,
    ]
    &&& after == (AppView {
        cfg_fields: after.cfg_fields,
        cfg_protocol: after.cfg_protocol,
        cfg_preset_open: after.cfg_preset_open,
        cfg_preset_sel: after.cfg_preset_sel,
        cfg_cursors: after.cfg_cursors,
        cfg_focus: ConfigFocus::BaseUrl,
        ..x
    })
}

/// On the home page Enter does what its row says: the quiz is entered, which logs in where
/// there are settings and else says that there are none; the settings are opened; or the
/// program is left.
pub proof fn law_home_rows_do_what_they_say(x: AppView, control: bool, presets: Seq<PresetView>)
    requires
        x.page is Home,
    ensures
        ({
            let (after, actions) = x.key(KeyEvent { code: KeyCode::Enter, control }, presets);
            match x.home_sel {
                HomeSelection::StartQuiz => {
                    &&& x.config is Some ==> after == x && actions == seq![
                        ActionView::Go(Page::Quiz),
                        ActionView::Login,
                    ]
                    &&& x.config is None ==> after == (AppView {
                        phase: PhaseView::NotConfigured,
                        ..x
                    }) && actions == seq![ActionView::Go(Page::Quiz)]
                },
                HomeSelection::Config => is_settings_page_of(x, after) && actions == seq![
                    ActionView::Go(Page::Config),
                ],
                HomeSelection::Quit => after == (AppView { quit: true, ..x }) && actions
                    == no_action(),
            }
        }),
{
}

/// On the home page the arrows go through the quiz, the settings and leaving, round and
/// round, and change nothing else.
pub proof fn law_home_is_walked(x: AppView, control: bool, presets: Seq<PresetView>)
    requires
        x.page is Home,
    ensures
        ({
            let (down, asked) = x.key(KeyEvent { code: KeyCode::Down, control }, presets);
            let (up, wanted) = x.key(KeyEvent { code: KeyCode::Up, control }, presets);
            &&& asked == no_action() && wanted == no_action()
            &&& down == (AppView { home_sel: down.home_sel, ..x })
            &&& up == (AppView { home_sel: up.home_sel, ..x })
            &&& x.home_sel is StartQuiz ==> down.home_sel is Config && up.home_sel is Quit
            &&& x.home_sel is Config ==> down.home_sel is Quit && up.home_sel is StartQuiz
            &&& x.home_sel is Quit ==> down.home_sel is StartQuiz && up.home_sel is Config
        }),
{
}

/// Where presets are offered, the arrows choose one in the list, Enter takes its address, its
/// model and its protocol and leaves the key, and Esc takes none. Nothing else changes.
pub proof fn law_presets_are_taken(
    x: AppView,
    code: KeyCode,
    control: bool,
    presets: Seq<PresetView>,
)
    requires
        x.page is Config,
        !x.model_picker_open,
        x.cfg_preset_open,
        x.wf(),
        presets.len() <= usize::MAX,
    ensures
        ({
            let (after, actions) = x.key(KeyEvent { code, control }, presets);
            let sel = x.cfg_preset_sel as int;
            &&& actions == no_action()
            &&& code is Enter && sel < presets.len() ==> after == (AppView {
                cfg_fields: seq![presets[sel].base_url, presets[sel].model, x.cfg_fields[2]],
                cfg_cursors: seq![
                    text::bytes_of(presets[sel].base_url).len() as usize,
                    text::bytes_of(presets[sel].model).len() as usize,
                    x.cfg_cursors[2],
                ],
                cfg_protocol: presets[sel].protocol,
                cfg_preset_open: false,
                ..x
            })
            &&& code is Esc ==> after == (AppView { cfg_preset_open: false, ..x })
            &&& code is Up ==> after == (AppView { cfg_preset_sel: after.cfg_preset_sel, ..x })
                && after.cfg_preset_sel == if sel == 0 {
                0
            } else {
                sel - 1
            }
            &&& code is Down && sel < presets.len() ==> after == (AppView {
                cfg_preset_sel: after.cfg_preset_sel,
                ..x
            }) && after.cfg_preset_sel == if sel + 1 < presets.len() {
                sel + 1
            } else {
                sel
            }
            &&& code is Left || code is Right || code is Backspace || code is Char || code is Other
                ==> after == x
        }),
{
}

/// In the dialog on resetting the arrows choose between going back, logging out and resetting
/// all; Enter does what is chosen, and Esc goes back.
pub proof fn law_reset_is_confirmed(
    x: AppView,
    code: KeyCode,
    control: bool,
    presets: Seq<PresetView>,
)
    requires
        x.page is Config,
        !x.model_picker_open,
        !x.cfg_preset_open,
        x.config_confirm_reset,
        x.wf(),
    ensures
        ({
            let (after, actions) = x.key(KeyEvent { code, control }, presets);
            let choice = x.config_reset_choice;
            &&& code is Enter && choice == 0 ==> after == (AppView {
                config_confirm_reset: false,
                ..x
            }) && actions == no_action()
            &&& code is Enter && choice == 1 ==> after == x && actions == seq![ActionView::Logout]
            &&& code is Enter && choice == 2 ==> after == x && actions == seq![
                ActionView::ResetAll,
            ]
            &&& code is Esc ==> after == (AppView { config_confirm_reset: false, ..x }) && actions
                == no_action()
            &&& code is Up || code is Down ==> after == (AppView {
                config_reset_choice: after.config_reset_choice,
                ..x
            }) && actions == no_action()
            &&& code is Up ==> after.config_reset_choice == if choice == 0 {
                0
            } else {
                choice - 1
            }
            &&& code is Down ==> after.config_reset_choice == if choice == 2 {
                2
            } else {
                choice + 1
            }
            &&& !(code is Enter || code is Esc || code is Up || code is Down) ==> after == x
                && actions == no_action()
        }),
{
}

/// In the list of models Enter puts the name of the model under the cursor into the field of
/// the model, and only there, and closes the list.
pub proof fn law_chosen_model_is_taken(
    x: AppView,
    offered: Seq<ModelView>,
    control: bool,
    presets: Seq<PresetView>,
)
    requires
        x.page is Config,
        x.model_picker_open,
        x.wf(),
        offered == crate::llm::models::filtered(x.models, x.model_filter),
        x.model_cursor < offered.len(),
    ensures
        ({
            let (after, actions) = x.key(KeyEvent { code: KeyCode::Enter, control }, presets);
            let id = offered[x.model_cursor as int].id;
            &&& actions == no_action()
            &&& after == (AppView {
                cfg_fields: seq![x.cfg_fields[0], id, x.cfg_fields[2]],
                cfg_cursors: seq![
                    x.cfg_cursors[0],
                    text::bytes_of(id).len() as usize,
                    x.cfg_cursors[2],
                ],
                model_picker_open: false,
                ..x
            })
        }),
{
}

/// In the list of models the arrows move the cursor by one, or by a page of twenty, and not
/// out of the list; they change nothing else.
pub proof fn law_models_are_walked(
    x: AppView,
    offered: Seq<ModelView>,
    code: KeyCode,
    control: bool,
    presets: Seq<PresetView>,
)
    requires
        x.page is Config,
        x.model_picker_open,
        offered == crate::llm::models::filtered(x.models, x.model_filter),
        x.model_cursor < offered.len(),
        offered.len() + 20 <= usize::MAX,
        code is Up || code is Down || code is Left || code is Right,
    ensures
        ({
            let (after, actions) = x.key(KeyEvent { code, control }, presets);
            let at = x.model_cursor as int;
            &&& actions == no_action()
            &&& after == (AppView { model_cursor: after.model_cursor, ..x })
            &&& code is Up ==> after.model_cursor == if at >= 1 {
                at - 1
            } else {
                0
            }
            &&& code is Down ==> after.model_cursor == if at + 1 < offered.len() {
                at + 1
            } else {
                at
            }
            &&& code is Left ==> after.model_cursor == if at >= 20 {
                at - 20
            } else {
                0
            }
            &&& code is Right ==> after.model_cursor == if at + 20 < offered.len() {
                at + 20
            } else {
                offered.len() - 1
            }
        }),
{
}

/// What is typed in the list of models goes to the end of the filter, and the cursor to the
/// first model; nothing else changes.
pub proof fn law_filter_is_typed(
    x: AppView,
    code: KeyCode,
    control: bool,
    presets: Seq<PresetView>,
)
    requires
        x.page is Config,
        x.model_picker_open,
    ensures
        ({
            let (after, actions) = x.key(KeyEvent { code, control }, presets);
            &&& actions == no_action()
            &&& code matches KeyCode::Char(c) ==> after == (AppView {
                model_filter: x.model_filter.push(c),
                model_cursor: 0,
                ..x
            })
            &&& code is Backspace ==> after == (AppView {
                model_filter: if x.model_filter.len() == 0 {
                    x.model_filter
                } else {
                    x.model_filter.drop_last()
                },
                model_cursor: 0,
                ..x
            })
        }),
{
}

/// On the settings page Enter and the space bar turn the switch of a row, and no other: the
/// thinking, the fast mode, the effort from one to the next and round, and the protocol to
/// the next one.
pub proof fn law_switches_are_turned(
    x: AppView,
    code: KeyCode,
    control: bool,
    presets: Seq<PresetView>,
)
    requires
        x.on_rows(),
        x.wf(),
        code is Enter || code == KeyCode::Char(' '),
    ensures
        ({
            let (after, actions) = x.key(KeyEvent { code, control }, presets);
            &&& x.cfg_focus is ThinkingToggle ==> after == (AppView {
                cfg_thinking: !x.cfg_thinking,
                ..x
            }) && actions == no_action()
            &&& x.cfg_focus is FastModeToggle ==> after == (AppView {
                cfg_fast_mode: !x.cfg_fast_mode,
                ..x
            }) && actions == no_action()
            &&& x.cfg_focus is ThinkingEffort ==> after == (AppView {
                cfg_effort: if x.cfg_effort == 0 {
                    1
                } else if x.cfg_effort == 1 {
                    2
                } else {
                    0
                },
                ..x
            }) && actions == no_action()
            &&& x.cfg_focus is Protocol ==> after == (AppView {
                cfg_protocol: after.cfg_protocol,
                ..x
            }) && actions == no_action() && follows(x.cfg_protocol, after.cfg_protocol)
        }),
{
}

/// Whether a protocol is the one behind another, as they are offered.
pub open spec fn follows(protocol: Protocol, next: Protocol) -> bool {
    match protocol {
        Protocol::OpenAiChat => next is OpenAiResponses,
        Protocol::OpenAiResponses => next is Claude,
        Protocol::Claude => next is Gemini,
        Protocol::Gemini => next is GeminiInteractions,
        Protocol::GeminiInteractions => next is Jev,
        Protocol::Jev => next is OpenAiChat,
    }
}

/// The arrows to the left and to the right turn the effort and the protocol back and on, and
/// move the cursor in a field by a byte, not out of it; on every other row they do nothing.
pub proof fn law_arrows_turn_or_move(
    x: AppView,
    control: bool,
    presets: Seq<PresetView>,
    field: int,
)
    requires
        x.on_rows(),
        x.wf(),
    ensures
        ({
            let (left, asked) = x.key(KeyEvent { code: KeyCode::Left, control }, presets);
            let (right, wanted) = x.key(KeyEvent { code: KeyCode::Right, control }, presets);
            let at = x.cfg_cursors[field] as int;
            let edits = (x.cfg_focus is BaseUrl && field == 0) || (x.cfg_focus is Model && field
                == 1) || (x.cfg_focus is ApiKey && field == 2);
            &&& asked == no_action() && wanted == no_action()
            &&& x.cfg_focus is ThinkingEffort ==> left == (AppView {
                cfg_effort: left.cfg_effort,
                ..x
            }) && right == (AppView { cfg_effort: right.cfg_effort, ..x }) && left.cfg_effort
                == (x.cfg_effort + 2) % 3 && right.cfg_effort == (x.cfg_effort + 1) % 3
            &&& x.cfg_focus is Protocol ==> left == (AppView {
                cfg_protocol: left.cfg_protocol,
                ..x
            }) && right == (AppView { cfg_protocol: right.cfg_protocol, ..x }) && follows(
                left.cfg_protocol,
                x.cfg_protocol,
            ) && follows(x.cfg_protocol, right.cfg_protocol)
            &&& edits && at > 0 ==> left == (AppView {
                cfg_cursors: x.cfg_cursors.update(field, (at - 1) as usize),
                ..x
            })
            &&& edits && at == 0 ==> left == x
            &&& edits && text::bytes_of(x.cfg_fields[field]).len() <= usize::MAX && at
                < text::bytes_of(x.cfg_fields[field]).len() ==> right == (AppView {
                cfg_cursors: x.cfg_cursors.update(field, (at + 1) as usize),
                ..x
            })
            &&& edits && text::bytes_of(x.cfg_fields[field]).len() <= usize::MAX && at
                >= text::bytes_of(x.cfg_fields[field]).len() ==> right == x
            &&& x.cfg_focus is ThinkingToggle || x.cfg_focus is FastModeToggle || x.cfg_focus
                is SaveBtn || x.cfg_focus is TemplateBtn || x.cfg_focus is ResetBtn ==> left == x
                && right == x
        }),
{
    let (left, asked) = x.key(KeyEvent { code: KeyCode::Left, control }, presets);
    let (right, wanted) = x.key(KeyEvent { code: KeyCode::Right, control }, presets);
    if (x.cfg_focus is BaseUrl && field == 0) || (x.cfg_focus is Model && field == 1) || (
    x.cfg_focus is ApiKey && field == 2) {
        assert(left.cfg_fields =~= x.cfg_fields);
        assert(right.cfg_fields =~= x.cfg_fields);
    }
}

/// A character that is typed on the row of a field goes into that field at the cursor, which
/// moves behind it; no other field changes, nor anything else. The like holds of the
/// character before the cursor, which Backspace takes out.
pub proof fn law_fields_are_edited(
    x: AppView,
    c: char,
    control: bool,
    presets: Seq<PresetView>,
    field: int,
)
    requires
        x.on_rows(),
        x.wf(),
        (x.cfg_focus is BaseUrl && field == 0) || (x.cfg_focus is Model && field == 1) || (
        x.cfg_focus is ApiKey && field == 2),
        vstd::utf8::is_ascii_chars(x.cfg_fields[field]),
        x.cfg_cursors[field] <= x.cfg_fields[field].len(),
        x.cfg_cursors[field] < usize::MAX,
    ensures
        ({
            let at = x.cfg_cursors[field] as int;
            let (typed, asked) = x.key(KeyEvent { code: KeyCode::Char(c), control }, presets);
            let (erased, wanted) = x.key(KeyEvent { code: KeyCode::Backspace, control }, presets);
            &&& asked == no_action() && wanted == no_action()
            &&& typed == (AppView {
                cfg_fields: x.cfg_fields.update(field, x.cfg_fields[field].insert(at, c)),
                cfg_cursors: x.cfg_cursors.update(field, (at + 1) as usize),
                ..x
            })
            &&& at > 0 ==> erased == (AppView {
                cfg_fields: x.cfg_fields.update(field, x.cfg_fields[field].remove(at - 1)),
                cfg_cursors: x.cfg_cursors.update(field, (at - 1) as usize),
                ..x
            })
            &&& at == 0 ==> erased == x
        }),
{
    let at = x.cfg_cursors[field] as int;
    crate::keys::law_ascii_is_edited_by_characters(x.cfg_fields[field], at, c);
    if at > 0 {
        crate::keys::law_ascii_is_edited_by_characters(x.cfg_fields[field], at - 1, c);
    }
}

/// On the settings page Enter opens what its row names: the list of the models, which are
/// fetched, the presets, and the dialog on resetting. Esc goes back.
pub proof fn law_rows_open_what_they_name(x: AppView, control: bool, presets: Seq<PresetView>)
    requires
        x.on_rows(),
    ensures
        ({
            let (after, actions) = x.key(KeyEvent { code: KeyCode::Enter, control }, presets);
            &&& x.cfg_focus is Model ==> after == (AppView { model_picker_open: true, ..x })
                && actions == seq![ActionView::FetchModels]
            &&& x.cfg_focus is TemplateBtn ==> after == (AppView {
                cfg_preset_open: true,
                cfg_preset_sel: 0,
                ..x
            }) && actions == no_action()
            &&& x.cfg_focus is ResetBtn ==> after == (AppView {
                config_confirm_reset: true,
                config_reset_choice: 0,
                ..x
            }) && actions == no_action()
            &&& x.cfg_focus is BaseUrl || x.cfg_focus is ApiKey ==> after == x && actions
                == no_action()
        }),
        x.key(KeyEvent { code: KeyCode::Esc, control }, presets) == (x, seq![ActionView::Back]),
{
}

/// The numbers of categories in their order, with commas between them.
pub open spec fn ids_in_order(categories: Seq<CategoryView>) -> Seq<char>
    decreases categories.len(),
{
    if categories.len() == 0 {
        seq![]
    } else if categories.len() == 1 {
        text::decimal(categories[0].id as nat)
    } else {
        text::decimal(categories[0].id as nat) + ","@ + ids_in_order(categories.skip(1))
    }
}

/// The categories that are selected, in their order.
pub open spec fn chosen_categories(categories: Seq<CategoryView>) -> Seq<CategoryView> {
    categories.filter(|category: CategoryView| category.selected)
}

proof fn lemma_chosen(categories: Seq<CategoryView>)
    ensures
        crate::input::selected_names(categories) == chosen_categories(categories).map_values(
            |category: CategoryView| category.name,
        ),
        crate::input::selected_ids(categories) == chosen_categories(categories).map_values(
            |category: CategoryView| text::decimal(category.id as nat),
        ),
        crate::input::selected_count(categories) == chosen_categories(categories).len(),
    decreases categories.len(),
{
    reveal(Seq::filter);
    if categories.len() > 0 {
        lemma_chosen(categories.drop_last());
        assert(crate::input::selected_names(categories) =~= chosen_categories(
            categories,
        ).map_values(|category: CategoryView| category.name));
        assert(crate::input::selected_ids(categories) =~= chosen_categories(categories).map_values(
            |category: CategoryView| text::decimal(category.id as nat),
        ));
    } else {
        assert(crate::input::selected_names(categories) =~= chosen_categories(
            categories,
        ).map_values(|category: CategoryView| category.name));
        assert(crate::input::selected_ids(categories) =~= chosen_categories(categories).map_values(
            |category: CategoryView| text::decimal(category.id as nat),
        ));
    }
}

proof fn lemma_ids(categories: Seq<CategoryView>)
    ensures
        text::join(
            categories.map_values(|category: CategoryView| text::decimal(category.id as nat)),
            ","@,
        ) == ids_in_order(categories),
    decreases categories.len(),
{
    let ids = categories.map_values(|category: CategoryView| text::decimal(category.id as nat));
    if categories.len() > 1 {
        lemma_ids(categories.skip(1));
        text::law_join_from_the_front(ids, ","@);
        assert(ids.skip(1) =~= categories.skip(1).map_values(
            |category: CategoryView| text::decimal(category.id as nat),
        ));
    }
}

/// On the captcha page Enter on the button submits what was entered for this captcha, with
/// the numbers of all selected categories in their order, and their names are kept. Where the
/// input or the selection is empty, that is said instead, and nothing is sent.
pub proof fn law_captcha_is_submitted(
    x: AppView,
    captcha: CaptchaView,
    control: bool,
    presets: Seq<PresetView>,
)
    requires
        x.page is Quiz,
        x.phase == PhaseView::Captcha(captcha),
        captcha.focus is Submit,
    ensures
        ({
            let (after, actions) = x.key(KeyEvent { code: KeyCode::Enter, control }, presets);
            let chosen = chosen_categories(captcha.categories);
            &&& captcha.input.len() > 0 && chosen.len() > 0 ==> actions == seq![
                ActionView::SaveCategories,
                ActionView::SubmitCaptcha {
                    input: captcha.input,
                    token: captcha.captcha_token,
                    ids: ids_in_order(chosen),
                },
            ] && after == (AppView {
                selected_categories: chosen.map_values(|category: CategoryView| category.name),
                phase: PhaseView::FetchingQuestion,
                ..x
            })
            &&& captcha.input.len() == 0 || chosen.len() == 0 ==> actions == no_action() && after
                == (AppView { phase: after.phase, ..x }) && (after.phase matches
                PhaseView::Captcha(told) && told == (CaptchaView { error: told.error, ..captcha })
                && told.error == if chosen.len() > 0 {
                "请输入验证码"@
            } else if captcha.input.len() > 0 {
                "请选择分类"@
            } else {
                "请选择分类并输入验证码"@
            })
        }),
{
    lemma_chosen(captcha.categories);
    lemma_ids(chosen_categories(captcha.categories));
}

/// On the captcha page the shortcuts work wherever the cursor is: another captcha is fetched,
/// and the selection and the cursor are kept for it, but not the input; or this captcha is
/// shown in the browser. Esc goes back and forgets where the quiz stood.
pub proof fn law_captcha_has_shortcuts(
    x: AppView,
    captcha: CaptchaView,
    presets: Seq<PresetView>,
    control: bool,
)
    requires
        x.page is Quiz,
        x.phase == PhaseView::Captcha(captcha),
    ensures
        ({
            let (after, actions) = x.key(
                KeyEvent { code: KeyCode::Char('r'), control: true },
                presets,
            );
            &&& actions == seq![ActionView::FetchCaptcha]
            &&& after == (AppView {
                captcha_preserve: Some(
                    PreserveView {
                        selected: captcha.categories.map_values(
                            |category: CategoryView| category.selected,
                        ),
                        cat_focus: captcha.cat_focus,
                        focus: captcha.focus,
                        input: Seq::<char>::empty(),
                    },
                ),
                phase: PhaseView::FetchingQuestion,
                ..x
            })
        }),
        x.key(KeyEvent { code: KeyCode::Char('b'), control: true }, presets) == (
            x,
            seq![ActionView::OpenBrowser(captcha.captcha_url)],
        ),
        x.key(KeyEvent { code: KeyCode::Esc, control }, presets) == (
            AppView { phase: PhaseView::NotConfigured, ..x },
            seq![ActionView::Back, ActionView::ForgetPhase],
        ),
{
    let (after, actions) = x.key(KeyEvent { code: KeyCode::Char('r'), control: true }, presets);
    assert(after.captcha_preserve->0.selected =~= captcha.categories.map_values(
        |category: CategoryView| category.selected,
    ));
}

/// On the captcha page what is typed goes to the end of the input while the cursor is there,
/// and the arrows lead from the last category to the input, on to the button and round; each
/// takes an error message away and changes nothing else.
pub proof fn law_captcha_is_edited(
    x: AppView,
    captcha: CaptchaView,
    code: KeyCode,
    control: bool,
    presets: Seq<PresetView>,
)
    requires
        x.page is Quiz,
        x.phase == PhaseView::Captcha(captcha),
        !(code is Esc),
        !(control && (code == KeyCode::Char('r') || code == KeyCode::Char('b'))),
        !(code is Enter && captcha.focus is Submit),
    ensures
        ({
            let (after, actions) = x.key(KeyEvent { code, control }, presets);
            let plain = CaptchaView { error: Seq::<char>::empty(), ..captcha };
            &&& actions == no_action()
            &&& after == (AppView { phase: after.phase, ..x })
            &&& after.phase matches PhaseView::Captcha(now)
            &&& captcha.focus is Input && code is Char ==> now == (CaptchaView {
                input: captcha.input.push(code->Char_0),
                ..plain
            })
            &&& captcha.focus is Input && code is Backspace ==> now == (CaptchaView {
                input: if captcha.input.len() == 0 {
                    captcha.input
                } else {
                    captcha.input.drop_last()
                },
                ..plain
            })
            &&& captcha.focus is Input && code is Down ==> now == (CaptchaView {
                focus: CaptchaFocus::Submit,
                ..plain
            })
            &&& captcha.focus is Input && code is Up ==> now == (CaptchaView {
                focus: CaptchaFocus::Categories,
                ..plain
            })
            &&& captcha.focus is Submit && code is Down ==> now == (CaptchaView {
                focus: CaptchaFocus::Categories,
                cat_focus: 0,
                ..plain
            })
            &&& captcha.focus is Submit && code is Up ==> now == (CaptchaView {
                focus: CaptchaFocus::Input,
                ..plain
            })
            &&& captcha.focus is Categories && code is Down && captcha.cat_focus + 1
                < captcha.categories.len() ==> now == (CaptchaView {
                cat_focus: (captcha.cat_focus + 1) as usize,
                ..plain
            })
            &&& captcha.focus is Categories && code is Down && captcha.cat_focus + 1
                >= captcha.categories.len() ==> now == (CaptchaView {
                focus: CaptchaFocus::Input,
                ..plain
            })
            &&& captcha.focus is Categories && code is Up && captcha.cat_focus > 0 ==> now == (
            CaptchaView { cat_focus: (captcha.cat_focus - 1) as usize, ..plain })
            &&& captcha.focus is Categories && code is Up && captcha.cat_focus == 0 ==> now == (
            CaptchaView { focus: CaptchaFocus::Submit, ..plain })
            &&& captcha.focus is Categories && (code is Backspace || (code is Char && code
                != KeyCode::Char(' '))) ==> now == captcha
            &&& captcha.focus is Submit && (code is Backspace || code is Char) ==> now == captcha
            &&& code is Left || code is Right || code is Other || code is Enter ==> now == captcha
        }),
{
}

/// Where a login is waited for, it can be started anew, its code can be shown in the browser,
/// and Esc goes back; where it timed out, Enter tries again or goes back as chosen.
pub proof fn law_login_is_waited_for(
    x: AppView,
    url: Seq<char>,
    control: bool,
    presets: Seq<PresetView>,
)
    requires
        x.page is Quiz,
    ensures
        x.phase == (PhaseView::WaitingScan { url }) ==> {
            &&& x.key(KeyEvent { code: KeyCode::Char('r'), control: true }, presets) == (
                x,
                seq![ActionView::Login],
            )
            &&& x.key(KeyEvent { code: KeyCode::Char('b'), control: true }, presets) == (
                x,
                seq![
                    ActionView::OpenBrowser(
                        "https://api.cl2wm.cn/api/qrcode/code?text="@
                            + crate::llm::url::percent_encoded(vstd::utf8::encode_utf8(url)),
                    ),
                ],
            )
            &&& x.key(KeyEvent { code: KeyCode::Esc, control }, presets) == (
                x,
                seq![ActionView::Back],
            )
        },
        x.phase is LoginTimeout ==> {
            &&& x.key(KeyEvent { code: KeyCode::Up, control }, presets) == (
                AppView { phase: PhaseView::LoginTimeout { retry: true }, ..x },
                no_action(),
            )
            &&& x.key(KeyEvent { code: KeyCode::Down, control }, presets) == (
                AppView { phase: PhaseView::LoginTimeout { retry: false }, ..x },
                no_action(),
            )
            &&& x.key(KeyEvent { code: KeyCode::Enter, control }, presets) == (
                x,
                if x.phase->retry {
                    seq![ActionView::Login]
                } else {
                    seq![ActionView::Back]
                },
            )
        },
{
}

/// While the quiz runs the arrows scroll by a line, not above the first, and Esc goes back;
/// where it is over, or failed, Enter and Esc go back; where there are no settings, Enter
/// opens them.
pub proof fn law_quiz_page_is_left(x: AppView, control: bool, presets: Seq<PresetView>)
    requires
        x.page is Quiz,
    ensures
        x.phase is Running || x.phase is FetchingQuestion ==> {
            let (down, asked) = x.key(KeyEvent { code: KeyCode::Down, control }, presets);
            let (up, wanted) = x.key(KeyEvent { code: KeyCode::Up, control }, presets);
            &&& asked == no_action() && wanted == no_action()
            &&& down == (AppView { history_scroll: down.history_scroll, ..x })
            &&& up == (AppView { history_scroll: up.history_scroll, ..x })
            &&& down.history_scroll == if x.history_scroll == usize::MAX {
                x.history_scroll as int
            } else {
                x.history_scroll + 1
            }
            &&& up.history_scroll == if x.history_scroll == 0 {
                0
            } else {
                x.history_scroll - 1
            }
        },
        x.phase is Running || x.phase is FetchingQuestion || x.phase is Finished || x.phase is Error
            || x.phase is NotConfigured ==> x.key(
            KeyEvent { code: KeyCode::Esc, control },
            presets,
        ) == (x, seq![ActionView::Back]),
        x.phase is Finished || x.phase is Error ==> x.key(
            KeyEvent { code: KeyCode::Enter, control },
            presets,
        ) == (x, seq![ActionView::Back]),
        x.phase is NotConfigured ==> {
            let (after, actions) = x.key(KeyEvent { code: KeyCode::Enter, control }, presets);
            is_settings_page_of(x, after) && actions == seq![ActionView::Go(Page::Config)]
        },
{
}

/// A move to the new form keeps all settings but the address, which is reduced to its base,
/// and the protocol, which is set to the one that is spoken; settings with a protocol are
/// kept as they are.
pub proof fn law_migration_keeps_the_rest(config: ConfigView)
    ensures
        ({
            let after = crate::config::migrated(config);
            &&& config.protocol is Some ==> after == config
            &&& config.protocol is None ==> after == (ConfigView {
                protocol: Some(config.spoken()),
                base_url: crate::llm::protocol::base_of(config.base_url),
                ..config
            })
        }),
{
}

/// On the settings page the rows follow each other as address, model, key, protocol,
/// thinking, effort, fast mode, saving, presets and resetting, round and round; without a
/// switch for thinking, the fast mode follows the protocol.
pub proof fn law_rows_follow_each_other(x: AppView, control: bool, presets: Seq<PresetView>)
    requires
        x.on_rows(),
    ensures
        ({
            let (after, actions) = x.key(KeyEvent { code: KeyCode::Down, control }, presets);
            let thinks = !(x.cfg_protocol is Jev);
            &&& actions == no_action()
            &&& after == (AppView { cfg_focus: after.cfg_focus, ..x })
            &&& match x.cfg_focus {
                ConfigFocus::BaseUrl => after.cfg_focus is Model,
                ConfigFocus::Model => after.cfg_focus is ApiKey,
                ConfigFocus::ApiKey => after.cfg_focus is Protocol,
                ConfigFocus::Protocol => if thinks {
                    after.cfg_focus is ThinkingToggle
                } else {
                    after.cfg_focus is FastModeToggle
                },
                ConfigFocus::ThinkingToggle => thinks ==> after.cfg_focus is ThinkingEffort,
                ConfigFocus::ThinkingEffort => after.cfg_focus is FastModeToggle,
                ConfigFocus::FastModeToggle => after.cfg_focus is SaveBtn,
                ConfigFocus::SaveBtn => after.cfg_focus is TemplateBtn,
                ConfigFocus::TemplateBtn => after.cfg_focus is ResetBtn,
                ConfigFocus::ResetBtn => after.cfg_focus is BaseUrl,
            }
        }),
{
}

/// A key that a page has no use for changes nothing and asks for nothing; a letter means a
/// shortcut only with the control key.
pub proof fn law_unused_keys_do_nothing(x: AppView, key: KeyEvent, presets: Seq<PresetView>)
    requires
        ({
            let code = key.code;
            match x.page {
                Page::Home => !(code is Up || code is Down || code is Enter),
                Page::Config => x.on_rows() && !(x.cfg_focus is BaseUrl || x.cfg_focus is Model
                    || x.cfg_focus is ApiKey) && (code is Backspace || (code is Char && (code
                    != KeyCode::Char(' ') || x.cfg_focus is SaveBtn || x.cfg_focus is TemplateBtn
                    || x.cfg_focus is ResetBtn))),
                Page::Quiz => match x.phase {
                    PhaseView::NotConfigured => !(code is Enter || code is Esc),
                    PhaseView::LoginTimeout { .. } => !(code is Up || code is Down
                        || code is Enter),
                    PhaseView::WaitingScan { .. } => !(code is Esc) && !(key.control && (code
                        == KeyCode::Char('r') || code == KeyCode::Char('b'))),
                    PhaseView::Finished | PhaseView::Error(_) => !(code is Enter || code is Esc),
                    PhaseView::FetchingQuestion | PhaseView::Running => !(code is Esc || code is Up
                        || code is Down),
                    PhaseView::Captcha(_) => false,
                },
            }
        }),
    ensures
        x.key(key, presets) == (x, no_action()),
{
}

} // verus!
