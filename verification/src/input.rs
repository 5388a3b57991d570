//! What the keys do.
use crate::config::{LlmConfig, PresetTemplate, PresetView};
use crate::llm::models::{filter_models, MODELS_PER_PAGE};
use crate::llm::protocol::{normalize_base, supports_thinking};
use crate::llm::url::percent_encode;
use crate::state::{
    Action, ActionView, App, AppView, CaptchaFocus, CaptchaPreserve, CaptchaState, CaptchaView,
    Category, CategoryView, ConfigFocus, HomeSelection, KeyCode, KeyEvent, Page, PhaseView,
    PreserveView, QuizPhase,
};
use crate::text;
use vstd::prelude::*;
use vstd::string::*;

verus! {

broadcast use {vstd::seq_lib::group_seq_properties, vstd::string::group_string_axioms};

/// No action.
pub open spec fn quiet() -> Seq<ActionView> {
    seq![]
}

/// The row of the home page above this one; the last above the first.
pub open spec fn home_above(row: HomeSelection) -> HomeSelection {
    match row {
        HomeSelection::StartQuiz => HomeSelection::Quit,
        HomeSelection::Config => HomeSelection::StartQuiz,
        HomeSelection::Quit => HomeSelection::Config,
    }
}

/// The row of the home page below this one; the first below the last.
pub open spec fn home_below(row: HomeSelection) -> HomeSelection {
    match row {
        HomeSelection::StartQuiz => HomeSelection::Config,
        HomeSelection::Config => HomeSelection::Quit,
        HomeSelection::Quit => HomeSelection::StartQuiz,
    }
}

/// The row of the settings below this one. The rows on thinking are passed over where there
/// is no switch for it.
pub open spec fn row_below(row: ConfigFocus, thinks: bool) -> ConfigFocus {
    match row {
        ConfigFocus::BaseUrl => ConfigFocus::Model,
        ConfigFocus::Model => ConfigFocus::ApiKey,
        ConfigFocus::ApiKey => ConfigFocus::Protocol,
        ConfigFocus::Protocol => if thinks {
            ConfigFocus::ThinkingToggle
        } else {
            ConfigFocus::FastModeToggle
        },
        ConfigFocus::ThinkingToggle => if thinks {
            ConfigFocus::ThinkingEffort
        } else {
            ConfigFocus::FastModeToggle
        },
        ConfigFocus::ThinkingEffort => ConfigFocus::FastModeToggle,
        ConfigFocus::FastModeToggle => ConfigFocus::SaveBtn,
        ConfigFocus::SaveBtn => ConfigFocus::TemplateBtn,
        ConfigFocus::TemplateBtn => ConfigFocus::ResetBtn,
        ConfigFocus::ResetBtn => ConfigFocus::BaseUrl,
    }
}

/// The row of the settings above this one.
pub open spec fn row_above(row: ConfigFocus, thinks: bool) -> ConfigFocus {
    match row {
        ConfigFocus::BaseUrl => ConfigFocus::ResetBtn,
        ConfigFocus::Model => ConfigFocus::BaseUrl,
        ConfigFocus::ApiKey => ConfigFocus::Model,
        ConfigFocus::Protocol => ConfigFocus::ApiKey,
        ConfigFocus::ThinkingToggle => ConfigFocus::Protocol,
        ConfigFocus::ThinkingEffort => ConfigFocus::ThinkingToggle,
        ConfigFocus::FastModeToggle => if thinks {
            ConfigFocus::ThinkingEffort
        } else {
            ConfigFocus::ThinkingToggle
        },
        ConfigFocus::SaveBtn => ConfigFocus::FastModeToggle,
        ConfigFocus::TemplateBtn => ConfigFocus::SaveBtn,
        ConfigFocus::ResetBtn => ConfigFocus::TemplateBtn,
    }
}

/// The field that a row of the settings edits.
pub open spec fn field_of(row: ConfigFocus) -> Option<int> {
    match row {
        ConfigFocus::BaseUrl => Some(0),
        ConfigFocus::Model => Some(1),
        ConfigFocus::ApiKey => Some(2),
        _ => None,
    }
}

/// How an effort is called.
pub open spec fn effort_name(effort: usize) -> Seq<char> {
    if effort == 0 {
        "low"@
    } else if effort == 1 {
        "high"@
    } else {
        "max"@
    }
}

/// The number of bytes of a text.
pub open spec fn end_of(field: Seq<char>) -> usize {
    text::bytes_of(field).len() as usize
}

/// One more, up to a bound.
pub open spec fn one_more(n: usize, bound: int) -> usize {
    if n < bound {
        (n + 1) as usize
    } else {
        bound as usize
    }
}

/// So many fewer, down to zero.
pub open spec fn fewer(n: usize, by: usize) -> usize {
    if n < by {
        0
    } else {
        (n - by) as usize
    }
}

impl AppView {
    /// The models that the filter lets through.
    pub open spec fn offered(self) -> Seq<crate::llm::models::ModelView> {
        crate::llm::models::filtered(self.models, self.model_filter)
    }

    /// With the cursor in the list of models.
    pub open spec fn clamped(self) -> AppView {
        let count = self.offered().len();
        AppView {
            model_cursor: if count == 0 {
                0
            } else if self.model_cursor < count {
                self.model_cursor
            } else {
                (count - 1) as usize
            },
            ..self
        }
    }

    /// With the settings page open. It shows the settings that are in force; where there are
    /// none, the presets are offered.
    pub open spec fn config_entered(self) -> AppView {
        let shown = match self.config {
            Some(config) => AppView {
                cfg_fields: seq![config.base_url, config.model, config.api_key],
                cfg_protocol: config.spoken(),
                ..self
            },
            None => AppView { cfg_preset_open: true, cfg_preset_sel: 0, ..self },
        };
        AppView {
            cfg_cursors: seq![
                end_of(shown.cfg_fields[0]),
                end_of(shown.cfg_fields[1]),
                end_of(shown.cfg_fields[2]),
            ],
            cfg_focus: ConfigFocus::BaseUrl,
            ..shown
        }
    }

    /// What comes of entering the quiz.
    pub open spec fn quiz_entered(self) -> (AppView, Seq<ActionView>) {
        match self.config {
            Some(_) => (self, seq![ActionView::Go(Page::Quiz), ActionView::Login]),
            None => (
                AppView { phase: PhaseView::NotConfigured, ..self },
                seq![ActionView::Go(Page::Quiz)],
            ),
        }
    }

    /// What a key does on the home page.
    pub open spec fn home_key(self, code: KeyCode) -> (AppView, Seq<ActionView>) {
        match code {
            KeyCode::Up => (AppView { home_sel: home_above(self.home_sel), ..self }, quiet()),
            KeyCode::Down => (AppView { home_sel: home_below(self.home_sel), ..self }, quiet()),
            KeyCode::Enter => match self.home_sel {
                HomeSelection::StartQuiz => self.quiz_entered(),
                HomeSelection::Config => (
                    self.config_entered(),
                    seq![ActionView::Go(Page::Config)],
                ),
                HomeSelection::Quit => (AppView { quit: true, ..self }, quiet()),
            },
            _ => (self, quiet()),
        }
    }

    /// With the address and the model of a preset, and its protocol.
    pub open spec fn with_preset(self, preset: PresetView) -> AppView {
        AppView {
            cfg_fields: seq![preset.base_url, preset.model, self.cfg_fields[2]],
            cfg_cursors: seq![
                end_of(preset.base_url),
                end_of(preset.model),
                self.cfg_cursors[2],
            ],
            cfg_protocol: preset.protocol,
            cfg_preset_open: false,
            ..self
        }
    }

    /// What a key does while the presets are offered.
    pub open spec fn preset_key(self, code: KeyCode, presets: Seq<PresetView>) -> AppView {
        match code {
            KeyCode::Up => AppView { cfg_preset_sel: fewer(self.cfg_preset_sel, 1), ..self },
            KeyCode::Down => AppView {
                cfg_preset_sel: one_more(
                    self.cfg_preset_sel,
                    if presets.len() == 0 {
                        0
                    } else {
                        presets.len() - 1
                    },
                ),
                ..self
            },
            KeyCode::Enter => if self.cfg_preset_sel < presets.len() {
                self.with_preset(presets[self.cfg_preset_sel as int])
            } else {
                AppView { cfg_preset_open: false, ..self }
            },
            KeyCode::Esc => AppView { cfg_preset_open: false, ..self },
            _ => self,
        }
    }

    /// What a key does in the dialog on logging out and resetting.
    pub open spec fn reset_key(self, code: KeyCode) -> (AppView, Seq<ActionView>) {
        match code {
            KeyCode::Up => (
                AppView { config_reset_choice: fewer(self.config_reset_choice, 1), ..self },
                quiet(),
            ),
            KeyCode::Down => (
                AppView { config_reset_choice: one_more(self.config_reset_choice, 2), ..self },
                quiet(),
            ),
            KeyCode::Enter => if self.config_reset_choice == 0 {
                (AppView { config_confirm_reset: false, ..self }, quiet())
            } else if self.config_reset_choice == 1 {
                (self, seq![ActionView::Logout])
            } else {
                (self, seq![ActionView::ResetAll])
            },
            KeyCode::Esc => (AppView { config_confirm_reset: false, ..self }, quiet()),
            _ => (self, quiet()),
        }
    }

    /// What a key does in the list of models, before the cursor is put back into it.
    pub open spec fn picker_moved(self, code: KeyCode) -> AppView {
        let count = self.offered().len();
        match code {
            KeyCode::Esc => if self.model_filter.len() == 0 {
                AppView { model_picker_open: false, ..self }
            } else {
                AppView { model_filter: seq![], model_cursor: 0, ..self }
            },
            KeyCode::Enter => if self.model_cursor < count {
                let id = self.offered()[self.model_cursor as int].id;
                AppView {
                    cfg_fields: seq![self.cfg_fields[0], id, self.cfg_fields[2]],
                    cfg_cursors: seq![self.cfg_cursors[0], end_of(id), self.cfg_cursors[2]],
                    model_picker_open: false,
                    ..self
                }
            } else {
                self
            },
            KeyCode::Up => AppView { model_cursor: fewer(self.model_cursor, 1), ..self },
            KeyCode::Down => if count > 0 {
                AppView {
                    model_cursor: if self.model_cursor + 1 < count {
                        (self.model_cursor + 1) as usize
                    } else {
                        (count - 1) as usize
                    },
                    ..self
                }
            } else {
                self
            },
            KeyCode::Left => AppView {
                model_cursor: fewer(self.model_cursor, MODELS_PER_PAGE),
                ..self
            },
            KeyCode::Right => if count > 0 {
                AppView {
                    model_cursor: if self.model_cursor + MODELS_PER_PAGE < count {
                        (self.model_cursor + MODELS_PER_PAGE) as usize
                    } else {
                        (count - 1) as usize
                    },
                    ..self
                }
            } else {
                self
            },
            KeyCode::Backspace => AppView {
                model_filter: text::without_last(self.model_filter),
                model_cursor: 0,
                ..self
            },
            KeyCode::Char(c) => AppView {
                model_filter: self.model_filter.push(c),
                model_cursor: 0,
                ..self
            },
            _ => self,
        }
    }

    /// What a key does in the list of models. Typing filters; the first Esc empties the
    /// filter, the next one closes the list.
    pub open spec fn picker_key(self, code: KeyCode) -> AppView {
        self.picker_moved(code).clamped()
    }

    /// The settings as they are edited.
    pub open spec fn edited(self) -> crate::config::ConfigView {
        crate::config::ConfigView {
            base_url: crate::llm::protocol::base_of(self.cfg_fields[0]),
            model: self.cfg_fields[1],
            api_key: self.cfg_fields[2],
            protocol: Some(self.cfg_protocol),
            enable_thinking: self.cfg_thinking,
            reasoning_effort: effort_name(self.cfg_effort),
            enable_fast_mode: self.cfg_fast_mode,
        }
    }

    /// Whether address, model and key are all there.
    pub open spec fn complete(self) -> bool {
        self.edited().base_url.len() > 0 && self.edited().model.len() > 0
            && self.edited().api_key.len() > 0
    }

    /// What comes of saving the settings.
    pub open spec fn saved(self) -> (AppView, Seq<ActionView>) {
        if !self.complete() {
            (self, quiet())
        } else {
            (
                AppView {
                    cfg_fields: seq![
                        self.edited().base_url,
                        self.cfg_fields[1],
                        self.cfg_fields[2],
                    ],
                    config: Some(self.edited()),
                    ..self
                },
                seq![ActionView::SaveConfig, ActionView::Back, ActionView::LoginOnQuiz],
            )
        }
    }

    /// With the switch that a row shows turned on by one.
    pub open spec fn turned(self) -> AppView {
        match self.cfg_focus {
            ConfigFocus::Protocol => AppView {
                cfg_protocol: crate::llm::protocol::next_of(self.cfg_protocol),
                ..self
            },
            ConfigFocus::ThinkingToggle => AppView { cfg_thinking: !self.cfg_thinking, ..self },
            ConfigFocus::ThinkingEffort => AppView {
                cfg_effort: ((self.cfg_effort + 1) % 3) as usize,
                ..self
            },
            ConfigFocus::FastModeToggle => AppView { cfg_fast_mode: !self.cfg_fast_mode, ..self },
            _ => self,
        }
    }

    /// Whether a row shows a switch.
    pub open spec fn on_switch(self) -> bool {
        self.cfg_focus is Protocol || self.cfg_focus is ThinkingToggle || self.cfg_focus
            is ThinkingEffort || self.cfg_focus is FastModeToggle
    }

    /// What Enter does on a row of the settings.
    pub open spec fn row_entered(self) -> (AppView, Seq<ActionView>) {
        match self.cfg_focus {
            ConfigFocus::SaveBtn => self.saved(),
            ConfigFocus::ResetBtn => (
                AppView { config_confirm_reset: true, config_reset_choice: 0, ..self },
                quiet(),
            ),
            ConfigFocus::Model => (
                AppView { model_picker_open: true, ..self },
                seq![ActionView::FetchModels],
            ),
            ConfigFocus::TemplateBtn => (
                AppView { cfg_preset_open: true, cfg_preset_sel: 0, ..self },
                quiet(),
            ),
            _ => (self.turned(), quiet()),
        }
    }

    /// With a field and its cursor as given.
    pub open spec fn with_field(self, field: int, content: Seq<char>, cursor: usize) -> AppView {
        AppView {
            cfg_fields: self.cfg_fields.update(field, content),
            cfg_cursors: self.cfg_cursors.update(field, cursor),
            ..self
        }
    }

    /// Without the character before the cursor.
    pub open spec fn backspaced(self) -> AppView {
        match field_of(self.cfg_focus) {
            Some(field) => {
                let at = self.cfg_cursors[field];
                if at > 0 {
                    self.with_field(
                        field,
                        text::without_char_at(self.cfg_fields[field], at - 1),
                        (at - 1) as usize,
                    )
                } else {
                    self
                }
            },
            None => self,
        }
    }

    /// With a character put in at the cursor, which goes on by one byte.
    pub open spec fn typed(self, c: char) -> AppView {
        match field_of(self.cfg_focus) {
            Some(field) => {
                let at = self.cfg_cursors[field];
                self.with_field(
                    field,
                    text::with_char_at(self.cfg_fields[field], at as int, c),
                    (at + 1) as usize,
                )
            },
            None => self,
        }
    }

    /// What the left arrow does on a row of the settings.
    pub open spec fn row_left(self) -> AppView {
        match self.cfg_focus {
            ConfigFocus::ThinkingEffort => AppView {
                cfg_effort: ((self.cfg_effort + 2) % 3) as usize,
                ..self
            },
            ConfigFocus::Protocol => AppView {
                cfg_protocol: crate::llm::protocol::previous_of(self.cfg_protocol),
                ..self
            },
            _ => match field_of(self.cfg_focus) {
                Some(field) => if self.cfg_cursors[field] > 0 {
                    self.with_field(
                        field,
                        self.cfg_fields[field],
                        (self.cfg_cursors[field] - 1) as usize,
                    )
                } else {
                    self
                },
                None => self,
            },
        }
    }

    /// What the right arrow does on a row of the settings.
    pub open spec fn row_right(self) -> AppView {
        match self.cfg_focus {
            ConfigFocus::ThinkingEffort => AppView {
                cfg_effort: ((self.cfg_effort + 1) % 3) as usize,
                ..self
            },
            ConfigFocus::Protocol => AppView {
                cfg_protocol: crate::llm::protocol::next_of(self.cfg_protocol),
                ..self
            },
            _ => match field_of(self.cfg_focus) {
                Some(field) => if self.cfg_cursors[field] < end_of(self.cfg_fields[field]) {
                    self.with_field(
                        field,
                        self.cfg_fields[field],
                        (self.cfg_cursors[field] + 1) as usize,
                    )
                } else {
                    self
                },
                None => self,
            },
        }
    }

    /// What a key does on a row of the settings.
    pub open spec fn row_key(self, code: KeyCode) -> (AppView, Seq<ActionView>) {
        let thinks = crate::llm::protocol::thinks(self.cfg_protocol);
        match code {
            KeyCode::Esc => (self, seq![ActionView::Back]),
            KeyCode::Enter => self.row_entered(),
            KeyCode::Backspace => (self.backspaced(), quiet()),
            KeyCode::Left => (self.row_left(), quiet()),
            KeyCode::Right => (self.row_right(), quiet()),
            KeyCode::Down => (
                AppView { cfg_focus: row_below(self.cfg_focus, thinks), ..self },
                quiet(),
            ),
            KeyCode::Up => (
                AppView { cfg_focus: row_above(self.cfg_focus, thinks), ..self },
                quiet(),
            ),
            KeyCode::Char(c) => if c == ' ' && self.on_switch() {
                (self.turned(), quiet())
            } else {
                (self.typed(c), quiet())
            },
            KeyCode::Other => (self, quiet()),
        }
    }

    /// What a key does on the settings page: what lies on top takes it.
    pub open spec fn config_key(self, code: KeyCode, presets: Seq<PresetView>) -> (
        AppView,
        Seq<ActionView>,
    ) {
        if self.model_picker_open {
            (self.picker_key(code), quiet())
        } else if self.cfg_preset_open {
            (self.preset_key(code, presets), quiet())
        } else if self.config_confirm_reset {
            self.reset_key(code)
        } else {
            self.row_key(code)
        }
    }

    /// Whether nothing lies on top of the settings page.
    pub open spec fn on_rows(self) -> bool {
        self.page is Config && !self.model_picker_open && !self.cfg_preset_open
            && !self.config_confirm_reset
    }

    /// Whether a key finds the cursor of the field that it edits at a character.
    pub open spec fn accepts(self, code: KeyCode) -> bool {
        self.on_rows() ==> match field_of(self.cfg_focus) {
            Some(field) => {
                let content = self.cfg_fields[field];
                let at = self.cfg_cursors[field];
                match code {
                    KeyCode::Backspace => at > 0 ==> at - 1 < text::bytes_of(content).len()
                        && text::is_boundary(content, at - 1),
                    KeyCode::Char(_) => text::is_boundary(content, at as int) && at < usize::MAX,
                    _ => true,
                }
            },
            None => true,
        }
    }
}

/// How many categories are selected.
pub open spec fn selected_count(categories: Seq<CategoryView>) -> nat
    decreases categories.len(),
{
    if categories.len() == 0 {
        0
    } else {
        selected_count(categories.drop_last()) + if categories.last().selected {
            1nat
        } else {
            0nat
        }
    }
}

/// The numbers of the selected categories.
pub open spec fn selected_ids(categories: Seq<CategoryView>) -> Seq<Seq<char>>
    decreases categories.len(),
{
    if categories.len() == 0 {
        seq![]
    } else if categories.last().selected {
        selected_ids(categories.drop_last()).push(text::decimal(categories.last().id as nat))
    } else {
        selected_ids(categories.drop_last())
    }
}

/// The names of the selected categories.
pub open spec fn selected_names(categories: Seq<CategoryView>) -> Seq<Seq<char>>
    decreases categories.len(),
{
    if categories.len() == 0 {
        seq![]
    } else if categories.last().selected {
        selected_names(categories.drop_last()).push(categories.last().name)
    } else {
        selected_names(categories.drop_last())
    }
}

/// Which categories are selected.
pub open spec fn selection(categories: Seq<CategoryView>) -> Seq<bool> {
    categories.map_values(|category: CategoryView| category.selected)
}

impl CaptchaView {
    /// With the error message gone.
    pub open spec fn cleared(self) -> CaptchaView {
        CaptchaView { error: seq![], ..self }
    }

    /// The selected categories as they are submitted.
    pub open spec fn ids(self) -> Seq<char> {
        text::join(selected_ids(self.categories), ","@)
    }

    /// With the category under the cursor selected or not; no more than three are.
    pub open spec fn toggled(self) -> CaptchaView {
        if self.cat_focus < self.categories.len() {
            let category = self.categories[self.cat_focus as int];
            let selected = !category.selected && selected_count(self.categories) < 3;
            CaptchaView {
                categories: self.categories.update(
                    self.cat_focus as int,
                    CategoryView { selected, ..category },
                ),
                ..self
            }.cleared()
        } else {
            self.cleared()
        }
    }

    /// What is said of a captcha that cannot be submitted.
    pub open spec fn complaint(self) -> Option<Seq<char>> {
        let nothing = selected_count(self.categories) == 0;
        if self.input.len() == 0 && nothing {
            Some("请选择分类并输入验证码"@)
        } else if self.input.len() == 0 {
            Some("请输入验证码"@)
        } else if nothing {
            Some("请选择分类"@)
        } else {
            None
        }
    }

    /// What the arrow up does.
    pub open spec fn up(self) -> CaptchaView {
        match self.focus {
            CaptchaFocus::Categories => if self.cat_focus > 0 {
                CaptchaView { cat_focus: (self.cat_focus - 1) as usize, ..self }.cleared()
            } else {
                CaptchaView { focus: CaptchaFocus::Submit, ..self }.cleared()
            },
            CaptchaFocus::Input => CaptchaView {
                focus: CaptchaFocus::Categories,
                ..self
            }.cleared(),
            CaptchaFocus::Submit => CaptchaView { focus: CaptchaFocus::Input, ..self }.cleared(),
        }
    }

    /// What the arrow down does.
    pub open spec fn down(self) -> CaptchaView {
        match self.focus {
            CaptchaFocus::Categories => if self.cat_focus + 1 < self.categories.len() {
                CaptchaView { cat_focus: (self.cat_focus + 1) as usize, ..self }.cleared()
            } else {
                CaptchaView { focus: CaptchaFocus::Input, ..self }.cleared()
            },
            CaptchaFocus::Input => CaptchaView { focus: CaptchaFocus::Submit, ..self }.cleared(),
            CaptchaFocus::Submit => CaptchaView {
                focus: CaptchaFocus::Categories,
                cat_focus: 0,
                ..self
            }.cleared(),
        }
    }

    /// What a key does that changes nothing but the page itself.
    pub open spec fn edited(self, code: KeyCode) -> CaptchaView {
        match code {
            KeyCode::Up => self.up(),
            KeyCode::Down => self.down(),
            KeyCode::Char(c) => if c == ' ' && self.focus is Categories {
                self.toggled()
            } else if self.focus is Input {
                CaptchaView { input: self.input.push(c), ..self }.cleared()
            } else {
                self
            },
            KeyCode::Backspace => if self.focus is Input {
                CaptchaView { input: text::without_last(self.input), ..self }.cleared()
            } else {
                self
            },
            _ => self,
        }
    }

    /// What is kept of the page while another captcha is fetched.
    pub open spec fn preserved(self) -> PreserveView {
        PreserveView {
            selected: selection(self.categories),
            cat_focus: self.cat_focus,
            focus: self.focus,
            input: seq![],
        }
    }
}

/// Whether a key is a letter with the control key.
pub open spec fn is_shortcut(key: KeyEvent, letter: char) -> bool {
    key.control && key.code == KeyCode::Char(letter)
}

/// Where a text is shown as a code to scan.
pub open spec fn scan_page(url: Seq<char>) -> Seq<char> {
    "https://api.cl2wm.cn/api/qrcode/code?text="@ + crate::llm::url::percent_encoded(
        vstd::utf8::encode_utf8(url),
    )
}

impl AppView {
    /// What comes of submitting a captcha.
    pub open spec fn submitted(self, captcha: CaptchaView) -> (AppView, Seq<ActionView>) {
        match captcha.complaint() {
            Some(error) => (
                AppView { phase: PhaseView::Captcha(CaptchaView { error, ..captcha }), ..self },
                quiet(),
            ),
            None => (
                AppView {
                    selected_categories: selected_names(captcha.categories),
                    phase: PhaseView::FetchingQuestion,
                    ..self
                },
                seq![
                    ActionView::SaveCategories,
                    ActionView::SubmitCaptcha {
                        input: captcha.input,
                        token: captcha.captcha_token,
                        ids: captcha.ids(),
                    },
                ],
            ),
        }
    }

    /// What a key does on the captcha page.
    pub open spec fn captcha_key(self, captcha: CaptchaView, key: KeyEvent) -> (
        AppView,
        Seq<ActionView>,
    ) {
        if key.code is Esc {
            (
                AppView { phase: PhaseView::NotConfigured, ..self },
                seq![ActionView::Back, ActionView::ForgetPhase],
            )
        } else if is_shortcut(key, 'r') {
            (
                AppView {
                    captcha_preserve: Some(captcha.preserved()),
                    phase: PhaseView::FetchingQuestion,
                    ..self
                },
                seq![ActionView::FetchCaptcha],
            )
        } else if is_shortcut(key, 'b') {
            (self, seq![ActionView::OpenBrowser(captcha.captcha_url)])
        } else if key.code is Enter && captcha.focus is Submit {
            self.submitted(captcha)
        } else {
            (AppView { phase: PhaseView::Captcha(captcha.edited(key.code)), ..self }, quiet())
        }
    }

    /// What a key does on the quiz page.
    pub open spec fn quiz_key(self, key: KeyEvent) -> (AppView, Seq<ActionView>) {
        match self.phase {
            PhaseView::NotConfigured => match key.code {
                KeyCode::Enter => (self.config_entered(), seq![ActionView::Go(Page::Config)]),
                KeyCode::Esc => (self, seq![ActionView::Back]),
                _ => (self, quiet()),
            },
            PhaseView::LoginTimeout { retry } => match key.code {
                KeyCode::Up => (
                    AppView { phase: PhaseView::LoginTimeout { retry: true }, ..self },
                    quiet(),
                ),
                KeyCode::Down => (
                    AppView { phase: PhaseView::LoginTimeout { retry: false }, ..self },
                    quiet(),
                ),
                KeyCode::Enter => (
                    self,
                    if retry {
                        seq![ActionView::Login]
                    } else {
                        seq![ActionView::Back]
                    },
                ),
                _ => (self, quiet()),
            },
            PhaseView::WaitingScan { url } => if is_shortcut(key, 'r') {
                (self, seq![ActionView::Login])
            } else if is_shortcut(key, 'b') {
                (self, seq![ActionView::OpenBrowser(scan_page(url))])
            } else if key.code is Esc {
                (self, seq![ActionView::Back])
            } else {
                (self, quiet())
            },
            PhaseView::Captcha(captcha) => self.captcha_key(captcha, key),
            PhaseView::Finished | PhaseView::Error(_) => if key.code is Enter || key.code is Esc {
                (self, seq![ActionView::Back])
            } else {
                (self, quiet())
            },
            PhaseView::FetchingQuestion | PhaseView::Running => match key.code {
                KeyCode::Esc => (self, seq![ActionView::Back]),
                KeyCode::Down => (
                    AppView {
                        history_scroll: one_more(self.history_scroll, usize::MAX as int),
                        ..self
                    },
                    quiet(),
                ),
                KeyCode::Up => (
                    AppView { history_scroll: fewer(self.history_scroll, 1), ..self },
                    quiet(),
                ),
                _ => (self, quiet()),
            },
        }
    }

    /// What a key does.
    pub open spec fn key(self, key: KeyEvent, presets: Seq<PresetView>) -> (
        AppView,
        Seq<ActionView>,
    ) {
        match self.page {
            Page::Home => self.home_key(key.code),
            Page::Config => self.config_key(key.code, presets),
            Page::Quiz => self.quiz_key(key),
        }
    }
}

/// No action.
fn none() -> (r: Vec<Action>)
    ensures
        crate::state::action_views(r@) == quiet(),
{
    let r: Vec<Action> = Vec::new();
    assert(crate::state::action_views(r@) =~= quiet());
    r
}

/// One action.
fn one(action: Action) -> (r: Vec<Action>)
    ensures
        crate::state::action_views(r@) == seq![action@],
{
    let mut r: Vec<Action> = Vec::new();
    r.push(action);
    assert(crate::state::action_views(r@) =~= seq![action@]);
    r
}

/// Two actions.
fn two(first: Action, second: Action) -> (r: Vec<Action>)
    ensures
        crate::state::action_views(r@) == seq![first@, second@],
{
    let mut r: Vec<Action> = Vec::new();
    r.push(first);
    r.push(second);
    assert(crate::state::action_views(r@) =~= seq![first@, second@]);
    r
}

/// Three actions.
fn three(first: Action, second: Action, third: Action) -> (r: Vec<Action>)
    ensures
        crate::state::action_views(r@) == seq![first@, second@, third@],
{
    let mut r: Vec<Action> = Vec::new();
    r.push(first);
    r.push(second);
    r.push(third);
    assert(crate::state::action_views(r@) =~= seq![first@, second@, third@]);
    r
}

/// One more, up to a bound.
fn increased(n: usize, bound: usize) -> (r: usize)
    ensures
        r == one_more(n, bound as int),
{
    if n < bound {
        n + 1
    } else {
        bound
    }
}

/// So many fewer, down to zero.
fn decreased(n: usize, by: usize) -> (r: usize)
    ensures
        r == fewer(n, by),
{
    if n < by {
        0
    } else {
        n - by
    }
}

/// The field that a row of the settings edits.
fn field_index(row: ConfigFocus) -> (r: Option<usize>)
    ensures
        match r {
            Some(field) => field_of(row) == Some(field as int) && field < 3,
            None => field_of(row) is None,
        },
{
    match row {
        ConfigFocus::BaseUrl => Some(0),
        ConfigFocus::Model => Some(1),
        ConfigFocus::ApiKey => Some(2),
        _ => None,
    }
}

/// How an effort is called.
fn effort_text(effort: usize) -> (r: &'static str)
    ensures
        r@ == effort_name(effort),
{
    if effort == 0 {
        "low"
    } else if effort == 1 {
        "high"
    } else {
        "max"
    }
}

impl App {
    /// How many models are shown on a page of the list.
    pub const MODELS_PER_PAGE: usize = MODELS_PER_PAGE;

    /// Takes a key.
    pub fn handle_key(&mut self, key: KeyEvent, presets: &[PresetTemplate]) -> (actions: Vec<
        Action,
    >)
        requires
            old(self)@.wf(),
            old(self)@.accepts(key.code),
        ensures
            (final(self)@, crate::state::action_views(actions@)) == old(self)@.key(
                key,
                crate::config::preset_views(presets@),
            ),
            final(self)@.wf(),
    {
        match self.page {
            Page::Home => self.key_home(key.code),
            Page::Config => self.key_config(key.code, presets),
            Page::Quiz => self.key_quiz(key),
        }
    }

    fn key_home(&mut self, code: KeyCode) -> (actions: Vec<Action>)
        requires
            old(self)@.wf(),
        ensures
            (final(self)@, crate::state::action_views(actions@)) == old(self)@.home_key(code),
            final(self)@.wf(),
    {
        match code {
            KeyCode::Up => {
                self.home_sel = match self.home_sel {
                    HomeSelection::StartQuiz => HomeSelection::Quit,
                    HomeSelection::Config => HomeSelection::StartQuiz,
                    HomeSelection::Quit => HomeSelection::Config,
                };
                none()
            },
            KeyCode::Down => {
                self.home_sel = match self.home_sel {
                    HomeSelection::StartQuiz => HomeSelection::Config,
                    HomeSelection::Config => HomeSelection::Quit,
                    HomeSelection::Quit => HomeSelection::StartQuiz,
                };
                none()
            },
            KeyCode::Enter => match self.home_sel {
                HomeSelection::StartQuiz => self.enter_quiz(),
                HomeSelection::Config => self.enter_config(),
                HomeSelection::Quit => {
                    self.quit = true;
                    none()
                },
            },
            _ => none(),
        }
    }

    fn enter_config(&mut self) -> (actions: Vec<Action>)
        requires
            old(self)@.wf(),
        ensures
            final(self)@ == old(self)@.config_entered(),
            crate::state::action_views(actions@) == seq![ActionView::Go(Page::Config)],
            final(self)@.wf(),
    {
        match &self.config {
            Some(config) => {
                let protocol = config.protocol();
                self.cfg_fields = [
                    config.base_url.clone(),
                    config.model.clone(),
                    config.api_key.clone(),
                ];
                self.cfg_protocol = protocol;
            },
            None => {
                self.cfg_preset_open = true;
                self.cfg_preset_sel = 0;
            },
        }
        self.cfg_cursors = [
            self.cfg_fields[0].as_str().len(),
            self.cfg_fields[1].as_str().len(),
            self.cfg_fields[2].as_str().len(),
        ];
        self.cfg_focus = ConfigFocus::BaseUrl;
        assert(self@ =~~= old(self)@.config_entered());
        one(Action::Go(Page::Config))
    }

    fn enter_quiz(&mut self) -> (actions: Vec<Action>)
        requires
            old(self)@.wf(),
        ensures
            (final(self)@, crate::state::action_views(actions@)) == old(self)@.quiz_entered(),
            final(self)@.wf(),
    {
        if self.config.is_none() {
            self.phase = QuizPhase::NotConfigured;
            return one(Action::Go(Page::Quiz));
        }
        two(Action::Go(Page::Quiz), Action::Login)
    }

    fn key_config(&mut self, code: KeyCode, presets: &[PresetTemplate]) -> (actions: Vec<Action>)
        requires
            old(self)@.wf(),
            old(self)@.page is Config,
            old(self)@.accepts(code),
        ensures
            (final(self)@, crate::state::action_views(actions@)) == old(self)@.config_key(
                code,
                crate::config::preset_views(presets@),
            ),
            final(self)@.wf(),
    {
        if self.model_picker_open {
            self.key_model_picker(code);
            return none();
        }
        if self.cfg_preset_open {
            self.key_presets(code, presets);
            return none();
        }
        if self.config_confirm_reset {
            return self.key_reset(code);
        }
        self.key_row(code)
    }

    /// Takes address, model and protocol of a preset.
    fn apply_preset(&mut self, preset: &PresetTemplate)
        requires
            old(self)@.wf(),
        ensures
            final(self)@ == old(self)@.with_preset(preset@),
            final(self)@.wf(),
    {
        self.cfg_fields[0] = preset.config.base_url.clone();
        self.cfg_fields[1] = preset.config.model.clone();
        self.cfg_cursors[0] = preset.config.base_url.as_str().len();
        self.cfg_cursors[1] = preset.config.model.as_str().len();
        self.cfg_protocol = preset.protocol;
        self.cfg_preset_open = false;
        proof {
            let wanted = old(self)@.with_preset(preset@);
            assert(self@.cfg_fields =~= wanted.cfg_fields);
            assert(self@.cfg_cursors =~= wanted.cfg_cursors);
        }
    }

    fn key_presets(&mut self, code: KeyCode, presets: &[PresetTemplate])
        requires
            old(self)@.wf(),
        ensures
            final(self)@ == old(self)@.preset_key(code, crate::config::preset_views(presets@)),
            final(self)@.wf(),
    {
        match code {
            KeyCode::Up => {
                self.cfg_preset_sel = decreased(self.cfg_preset_sel, 1);
            },
            KeyCode::Down => {
                self.cfg_preset_sel = increased(self.cfg_preset_sel, decreased(presets.len(), 1));
            },
            KeyCode::Enter => {
                if self.cfg_preset_sel < presets.len() {
                    let preset = &presets[self.cfg_preset_sel];
                    assert(crate::config::preset_views(presets@)[self.cfg_preset_sel as int]
                        == preset@);
                    self.apply_preset(preset);
                } else {
                    self.cfg_preset_open = false;
                }
            },
            KeyCode::Esc => {
                self.cfg_preset_open = false;
            },
            _ => {},
        }
    }

    fn key_reset(&mut self, code: KeyCode) -> (actions: Vec<Action>)
        requires
            old(self)@.wf(),
        ensures
            (final(self)@, crate::state::action_views(actions@)) == old(self)@.reset_key(code),
            final(self)@.wf(),
    {
        match code {
            KeyCode::Up => {
                self.config_reset_choice = decreased(self.config_reset_choice, 1);
                none()
            },
            KeyCode::Down => {
                self.config_reset_choice = increased(self.config_reset_choice, 2);
                none()
            },
            KeyCode::Enter => {
                if self.config_reset_choice == 0 {
                    self.config_confirm_reset = false;
                    none()
                } else if self.config_reset_choice == 1 {
                    one(Action::Logout)
                } else {
                    one(Action::ResetAll)
                }
            },
            KeyCode::Esc => {
                self.config_confirm_reset = false;
                none()
            },
            _ => none(),
        }
    }

    /// How many models the filter lets through.
    fn filtered_count(&self) -> (count: usize)
        ensures
            count == self@.offered().len(),
            count <= self@.models.len(),
    {
        let offered = filter_models(&self.models, self.model_filter.as_str());
        proof {
            lemma_offered_len(self@);
            assert(crate::llm::models::selected_views(offered@).len() == offered@.len());
        }
        offered.len()
    }

    /// The name of the model under the cursor.
    fn picked_model(&self) -> (id: Option<String>)
        ensures
            text::opt_text(id) == if self@.model_cursor < self@.offered().len() {
                Some(self@.offered()[self@.model_cursor as int].id)
            } else {
                None
            },
    {
        let offered = filter_models(&self.models, self.model_filter.as_str());
        let ghost views = crate::llm::models::selected_views(offered@);
        assert(views.len() == offered@.len());
        if self.model_cursor < offered.len() {
            assert(views[self.model_cursor as int] == offered@[self.model_cursor as int]@);
            Some(offered[self.model_cursor].id.clone())
        } else {
            None
        }
    }

    /// Puts the cursor back into the list of models.
    fn clamp_model_cursor(&mut self)
        requires
            old(self)@.wf(),
        ensures
            final(self)@ == old(self)@.clamped(),
            final(self)@.wf(),
    {
        let count = self.filtered_count();
        if count == 0 {
            self.model_cursor = 0;
        } else if self.model_cursor >= count {
            self.model_cursor = count - 1;
        }
    }

    fn key_model_picker(&mut self, code: KeyCode)
        requires
            old(self)@.wf(),
        ensures
            final(self)@ == old(self)@.picker_key(code),
            final(self)@.wf(),
    {
        self.move_in_picker(code);
        self.clamp_model_cursor();
    }

    /// Takes the model under the cursor. While the list is being fetched, or where nothing
    /// matches, it stays open.
    fn pick_model(&mut self)
        requires
            old(self)@.wf(),
        ensures
            final(self)@ == old(self)@.picker_moved(KeyCode::Enter),
            final(self)@.wf(),
    {
        if let Some(id) = self.picked_model() {
            self.cfg_cursors[1] = id.as_str().len();
            self.cfg_fields[1] = id;
            self.model_picker_open = false;
            proof {
                let wanted = old(self)@.picker_moved(KeyCode::Enter);
                assert(self@.cfg_fields =~= wanted.cfg_fields);
                assert(self@.cfg_cursors =~= wanted.cfg_cursors);
            }
        }
    }

    fn move_in_picker(&mut self, code: KeyCode)
        requires
            old(self)@.wf(),
        ensures
            final(self)@ == old(self)@.picker_moved(code),
            final(self)@.wf(),
    {
        let count: usize = self.filtered_count();
        match code {
            KeyCode::Esc => {
                if self.model_filter.as_str().is_empty() {
                    self.model_picker_open = false;
                } else {
                    let none = String::new();
                    assert(none@ =~= seq![]);
                    self.model_filter = none;
                    self.model_cursor = 0;
                }
            },
            KeyCode::Enter => self.pick_model(),
            KeyCode::Up => {
                self.model_cursor = decreased(self.model_cursor, 1);
            },
            KeyCode::Down => {
                if count > 0 {
                    self.model_cursor = if self.model_cursor + 1 < count {
                        self.model_cursor + 1
                    } else {
                        count - 1
                    };
                }
            },
            KeyCode::Left => {
                self.model_cursor = decreased(self.model_cursor, MODELS_PER_PAGE);
            },
            KeyCode::Right => {
                if count > 0 {
                    self.model_cursor = if self.model_cursor + MODELS_PER_PAGE < count {
                        self.model_cursor + MODELS_PER_PAGE
                    } else {
                        count - 1
                    };
                }
            },
            KeyCode::Backspace => {
                self.model_filter = text::popped(self.model_filter.as_str());
                self.model_cursor = 0;
            },
            KeyCode::Char(character) => {
                self.model_filter.push(character);
                self.model_cursor = 0;
            },
            KeyCode::Other => {},
        }
    }

    /// Whether there are rows on thinking.
    fn thinking_visible(&self) -> (r: bool)
        ensures
            r == crate::llm::protocol::thinks(self@.cfg_protocol),
    {
        supports_thinking(self.cfg_protocol)
    }

    fn key_row(&mut self, code: KeyCode) -> (actions: Vec<Action>)
        requires
            old(self)@.wf(),
            old(self)@.on_rows(),
            old(self)@.accepts(code),
        ensures
            (final(self)@, crate::state::action_views(actions@)) == old(self)@.row_key(code),
            final(self)@.wf(),
    {
        match code {
            KeyCode::Esc => one(Action::Back),
            KeyCode::Enter => self.enter_row(),
            KeyCode::Backspace => {
                self.backspace();
                none()
            },
            KeyCode::Left => {
                self.move_left();
                none()
            },
            KeyCode::Right => {
                self.move_right();
                none()
            },
            KeyCode::Down => {
                self.cfg_focus = self.focus_below();
                none()
            },
            KeyCode::Up => {
                self.cfg_focus = self.focus_above();
                none()
            },
            KeyCode::Char(c) => {
                if c == ' ' && self.focus_on_switch() {
                    self.turn();
                } else {
                    self.type_char(c);
                }
                none()
            },
            KeyCode::Other => none(),
        }
    }

    fn focus_below(&self) -> (r: ConfigFocus)
        ensures
            r == row_below(self@.cfg_focus, crate::llm::protocol::thinks(self@.cfg_protocol)),
    {
        match self.cfg_focus {
            ConfigFocus::BaseUrl => ConfigFocus::Model,
            ConfigFocus::Model => ConfigFocus::ApiKey,
            ConfigFocus::ApiKey => ConfigFocus::Protocol,
            ConfigFocus::Protocol => {
                if self.thinking_visible() {
                    ConfigFocus::ThinkingToggle
                } else {
                    ConfigFocus::FastModeToggle
                }
            },
            ConfigFocus::ThinkingToggle => {
                if self.thinking_visible() {
                    ConfigFocus::ThinkingEffort
                } else {
                    ConfigFocus::FastModeToggle
                }
            },
            ConfigFocus::ThinkingEffort => ConfigFocus::FastModeToggle,
            ConfigFocus::FastModeToggle => ConfigFocus::SaveBtn,
            ConfigFocus::SaveBtn => ConfigFocus::TemplateBtn,
            ConfigFocus::TemplateBtn => ConfigFocus::ResetBtn,
            ConfigFocus::ResetBtn => ConfigFocus::BaseUrl,
        }
    }

    fn focus_above(&self) -> (r: ConfigFocus)
        ensures
            r == row_above(self@.cfg_focus, crate::llm::protocol::thinks(self@.cfg_protocol)),
    {
        match self.cfg_focus {
            ConfigFocus::BaseUrl => ConfigFocus::ResetBtn,
            ConfigFocus::Model => ConfigFocus::BaseUrl,
            ConfigFocus::ApiKey => ConfigFocus::Model,
            ConfigFocus::Protocol => ConfigFocus::ApiKey,
            ConfigFocus::ThinkingToggle => ConfigFocus::Protocol,
            ConfigFocus::ThinkingEffort => ConfigFocus::ThinkingToggle,
            ConfigFocus::FastModeToggle => {
                if self.thinking_visible() {
                    ConfigFocus::ThinkingEffort
                } else {
                    ConfigFocus::ThinkingToggle
                }
            },
            ConfigFocus::SaveBtn => ConfigFocus::FastModeToggle,
            ConfigFocus::TemplateBtn => ConfigFocus::SaveBtn,
            ConfigFocus::ResetBtn => ConfigFocus::TemplateBtn,
        }
    }

    fn focus_on_switch(&self) -> (r: bool)
        ensures
            r == self@.on_switch(),
    {
        match self.cfg_focus {
            ConfigFocus::Protocol | ConfigFocus::ThinkingToggle | ConfigFocus::ThinkingEffort
            | ConfigFocus::FastModeToggle => true,
            _ => false,
        }
    }

    /// Turns the switch that a row shows on by one.
    fn turn(&mut self)
        requires
            old(self)@.wf(),
        ensures
            final(self)@ == old(self)@.turned(),
            final(self)@.wf(),
    {
        match self.cfg_focus {
            ConfigFocus::Protocol => {
                self.cfg_protocol = self.cfg_protocol.next();
            },
            ConfigFocus::ThinkingToggle => {
                self.cfg_thinking = !self.cfg_thinking;
            },
            ConfigFocus::ThinkingEffort => {
                self.cfg_effort = (self.cfg_effort + 1) % 3;
            },
            ConfigFocus::FastModeToggle => {
                self.cfg_fast_mode = !self.cfg_fast_mode;
            },
            _ => {},
        }
    }

    fn enter_row(&mut self) -> (actions: Vec<Action>)
        requires
            old(self)@.wf(),
        ensures
            (final(self)@, crate::state::action_views(actions@)) == old(self)@.row_entered(),
            final(self)@.wf(),
    {
        match self.cfg_focus {
            ConfigFocus::SaveBtn => self.save_config(),
            ConfigFocus::ResetBtn => {
                self.config_confirm_reset = true;
                self.config_reset_choice = 0;
                none()
            },
            ConfigFocus::Model => {
                self.model_picker_open = true;
                one(Action::FetchModels)
            },
            ConfigFocus::TemplateBtn => {
                self.cfg_preset_open = true;
                self.cfg_preset_sel = 0;
                none()
            },
            _ => {
                self.turn();
                none()
            },
        }
    }

    fn save_config(&mut self) -> (actions: Vec<Action>)
        requires
            old(self)@.wf(),
        ensures
            (final(self)@, crate::state::action_views(actions@)) == old(self)@.saved(),
            final(self)@.wf(),
    {
        let base = normalize_base(self.cfg_fields[0].as_str());
        let model = self.cfg_fields[1].clone();
        let key = self.cfg_fields[2].clone();
        if base.as_str().is_empty() || model.as_str().is_empty() || key.as_str().is_empty() {
            return none();
        }
        let config = LlmConfig {
            base_url: base.clone(),
            model,
            api_key: key,
            protocol: Some(self.cfg_protocol),
            enable_thinking: self.cfg_thinking,
            reasoning_effort: effort_text(self.cfg_effort).to_owned(),
            enable_fast_mode: self.cfg_fast_mode,
        };
        assert(config@ =~= old(self)@.edited());
        self.cfg_fields[0] = base;
        self.config = Some(config);
        assert(self@ =~~= old(self)@.saved().0);
        three(Action::SaveConfig, Action::Back, Action::LoginOnQuiz)
    }

    fn backspace(&mut self)
        requires
            old(self)@.wf(),
            old(self)@.on_rows(),
            old(self)@.accepts(KeyCode::Backspace),
        ensures
            final(self)@ == old(self)@.backspaced(),
            final(self)@.wf(),
    {
        if let Some(field) = field_index(self.cfg_focus) {
            let at: usize = self.cfg_cursors[field];
            if at > 0 {
                self.cfg_fields[field] = text::removed_at(
                    self.cfg_fields[field].as_str(),
                    at - 1,
                );
                self.cfg_cursors[field] = at - 1;
                assert(self@ =~~= old(self)@.backspaced());
            }
        }
    }

    fn type_char(&mut self, c: char)
        requires
            old(self)@.wf(),
            old(self)@.on_rows(),
            old(self)@.accepts(KeyCode::Char(c)),
        ensures
            final(self)@ == old(self)@.typed(c),
            final(self)@.wf(),
    {
        if let Some(field) = field_index(self.cfg_focus) {
            let at: usize = self.cfg_cursors[field];
            self.cfg_fields[field] = text::inserted_at(self.cfg_fields[field].as_str(), at, c);
            self.cfg_cursors[field] = at + 1;
            assert(self@ =~~= old(self)@.typed(c));
        }
    }

    fn move_left(&mut self)
        requires
            old(self)@.wf(),
        ensures
            final(self)@ == old(self)@.row_left(),
            final(self)@.wf(),
    {
        match self.cfg_focus {
            ConfigFocus::ThinkingEffort => {
                self.cfg_effort = (self.cfg_effort + 2) % 3;
            },
            ConfigFocus::Protocol => {
                self.cfg_protocol = self.cfg_protocol.previous();
            },
            _ => {
                if let Some(field) = field_index(self.cfg_focus) {
                    if self.cfg_cursors[field] > 0 {
                        self.cfg_cursors[field] = self.cfg_cursors[field] - 1;
                        assert(self@ =~~= old(self)@.row_left());
                    }
                }
            },
        }
    }

    fn move_right(&mut self)
        requires
            old(self)@.wf(),
        ensures
            final(self)@ == old(self)@.row_right(),
            final(self)@.wf(),
    {
        match self.cfg_focus {
            ConfigFocus::ThinkingEffort => {
                self.cfg_effort = (self.cfg_effort + 1) % 3;
            },
            ConfigFocus::Protocol => {
                self.cfg_protocol = self.cfg_protocol.next();
            },
            _ => {
                if let Some(field) = field_index(self.cfg_focus) {
                    if self.cfg_cursors[field] < self.cfg_fields[field].as_str().len() {
                        self.cfg_cursors[field] = self.cfg_cursors[field] + 1;
                        assert(self@ =~~= old(self)@.row_right());
                    }
                }
            },
        }
    }
}

/// How many categories are selected.
fn count_selected(categories: &Vec<Category>) -> (r: usize)
    ensures
        r == selected_count(crate::state::category_views(categories@)),
{
    let ghost views = crate::state::category_views(categories@);
    let mut r: usize = 0;
    let mut i: usize = 0;
    assert(views.take(0) =~= seq![]);
    while i < categories.len()
        invariant
            i <= categories@.len(),
            r <= i,
            views == crate::state::category_views(categories@),
            r == selected_count(views.take(i as int)),
        decreases categories@.len() - i,
    {
        assert(views.take(i + 1).drop_last() =~= views.take(i as int));
        assert(views.take(i + 1).last() == categories@[i as int]@);
        if categories[i].selected {
            r += 1;
        }
        i += 1;
    }
    assert(views.take(i as int) =~= views);
    r
}

/// The numbers of the selected categories.
fn ids_of_selected(categories: &Vec<Category>) -> (r: Vec<String>)
    ensures
        text::texts(r@) == selected_ids(crate::state::category_views(categories@)),
{
    let ghost views = crate::state::category_views(categories@);
    let mut r: Vec<String> = Vec::new();
    let mut i: usize = 0;
    assert(views.take(0) =~= seq![]);
    assert(text::texts(r@) =~= seq![]);
    while i < categories.len()
        invariant
            i <= categories@.len(),
            views == crate::state::category_views(categories@),
            text::texts(r@) == selected_ids(views.take(i as int)),
        decreases categories@.len() - i,
    {
        let ghost before = text::texts(r@);
        assert(views.take(i + 1).drop_last() =~= views.take(i as int));
        assert(views.take(i + 1).last() == categories@[i as int]@);
        if categories[i].selected {
            let id = text::decimal_text(categories[i].id);
            r.push(id);
            assert(text::texts(r@) =~= before.push(id@));
        }
        i += 1;
    }
    assert(views.take(i as int) =~= views);
    r
}

/// The names of the selected categories.
fn names_of_selected(categories: &Vec<Category>) -> (r: Vec<String>)
    ensures
        text::texts(r@) == selected_names(crate::state::category_views(categories@)),
{
    let ghost views = crate::state::category_views(categories@);
    let mut r: Vec<String> = Vec::new();
    let mut i: usize = 0;
    assert(views.take(0) =~= seq![]);
    assert(text::texts(r@) =~= seq![]);
    while i < categories.len()
        invariant
            i <= categories@.len(),
            views == crate::state::category_views(categories@),
            text::texts(r@) == selected_names(views.take(i as int)),
        decreases categories@.len() - i,
    {
        let ghost before = text::texts(r@);
        assert(views.take(i + 1).drop_last() =~= views.take(i as int));
        assert(views.take(i + 1).last() == categories@[i as int]@);
        if categories[i].selected {
            let name = categories[i].name.clone();
            r.push(name);
            assert(text::texts(r@) =~= before.push(name@));
        }
        i += 1;
    }
    assert(views.take(i as int) =~= views);
    r
}

/// Which categories are selected.
fn selected_flags(categories: &Vec<Category>) -> (r: Vec<bool>)
    ensures
        r@ == selection(crate::state::category_views(categories@)),
{
    let ghost wanted = selection(crate::state::category_views(categories@));
    let mut r: Vec<bool> = Vec::new();
    let mut i: usize = 0;
    while i < categories.len()
        invariant
            i <= categories@.len(),
            wanted == selection(crate::state::category_views(categories@)),
            r@ == wanted.take(i as int),
        decreases categories@.len() - i,
    {
        assert(wanted[i as int] == categories@[i as int].selected);
        r.push(categories[i].selected);
        assert(r@ =~= wanted.take(i + 1));
        i += 1;
    }
    assert(wanted.take(i as int) =~= wanted);
    r
}

impl CaptchaState {
    /// Takes the error message away.
    fn clear(&mut self)
        ensures
            final(self)@ == old(self)@.cleared(),
    {
        let none = String::new();
        assert(none@ =~= seq![]);
        self.error = none;
    }

    fn key_up(&mut self)
        ensures
            final(self)@ == old(self)@.up(),
    {
        match self.focus {
            CaptchaFocus::Categories => {
                if self.cat_focus > 0 {
                    self.cat_focus = self.cat_focus - 1;
                } else {
                    self.focus = CaptchaFocus::Submit;
                }
            },
            CaptchaFocus::Input => {
                self.focus = CaptchaFocus::Categories;
            },
            CaptchaFocus::Submit => {
                self.focus = CaptchaFocus::Input;
            },
        }
        self.clear();
    }

    fn key_down(&mut self)
        ensures
            final(self)@ == old(self)@.down(),
    {
        match self.focus {
            CaptchaFocus::Categories => {
                if self.cat_focus < decreased(self.categories.len(), 1) {
                    self.cat_focus = self.cat_focus + 1;
                } else {
                    self.focus = CaptchaFocus::Input;
                }
            },
            CaptchaFocus::Input => {
                self.focus = CaptchaFocus::Submit;
            },
            CaptchaFocus::Submit => {
                self.focus = CaptchaFocus::Categories;
                self.cat_focus = 0;
            },
        }
        self.clear();
    }

    /// Selects the category under the cursor, or not; no more than three are selected.
    fn toggle(&mut self)
        ensures
            final(self)@ == old(self)@.toggled(),
    {
        let count: usize = count_selected(&self.categories);
        let at: usize = self.cat_focus;
        if at < self.categories.len() {
            let category = &self.categories[at];
            let changed = Category {
                id: category.id,
                name: category.name.clone(),
                selected: !category.selected && count < 3,
            };
            let ghost view = changed@;
            self.categories.set(at, changed);
            assert(self@.categories =~= old(self)@.categories.update(at as int, view));
        }
        self.clear();
    }

    fn edit(&mut self, code: KeyCode)
        ensures
            final(self)@ == old(self)@.edited(code),
    {
        match code {
            KeyCode::Up => self.key_up(),
            KeyCode::Down => self.key_down(),
            KeyCode::Char(c) => match self.focus {
                CaptchaFocus::Categories => {
                    if c == ' ' {
                        self.toggle();
                    }
                },
                CaptchaFocus::Input => {
                    self.input.push(c);
                    self.clear();
                },
                CaptchaFocus::Submit => {},
            },
            KeyCode::Backspace => {
                if let CaptchaFocus::Input = self.focus {
                    self.input = text::popped(self.input.as_str());
                    self.clear();
                }
            },
            _ => {},
        }
    }

    /// What is said of a captcha that cannot be submitted.
    fn describe_missing(&self) -> (r: Option<String>)
        ensures
            text::opt_text(r) == self@.complaint(),
    {
        let nothing = count_selected(&self.categories) == 0;
        if self.input.as_str().is_empty() && nothing {
            Some("请选择分类并输入验证码".to_owned())
        } else if self.input.as_str().is_empty() {
            Some("请输入验证码".to_owned())
        } else if nothing {
            Some("请选择分类".to_owned())
        } else {
            None
        }
    }
}

/// Whether a key is a letter with the control key.
fn shortcut(key: KeyEvent, letter: char) -> (r: bool)
    ensures
        r == is_shortcut(key, letter),
{
    match key.code {
        KeyCode::Char(c) => key.control && c == letter,
        _ => false,
    }
}

impl App {
    fn key_quiz(&mut self, key: KeyEvent) -> (actions: Vec<Action>)
        requires
            old(self)@.wf(),
        ensures
            (final(self)@, crate::state::action_views(actions@)) == old(self)@.quiz_key(key),
            final(self)@.wf(),
    {
        match &self.phase {
            QuizPhase::NotConfigured => match key.code {
                KeyCode::Enter => self.enter_config(),
                KeyCode::Esc => one(Action::Back),
                _ => none(),
            },
            QuizPhase::LoginTimeout { retry } => {
                let retry = *retry;
                self.key_login_timeout(key.code, retry)
            },
            QuizPhase::WaitingScan { url } => {
                if shortcut(key, 'r') {
                    return one(Action::Login);
                }
                if shortcut(key, 'b') {
                    let mut page = "https://api.cl2wm.cn/api/qrcode/code?text=".to_owned();
                    page.append(percent_encode(url.as_str()).as_str());
                    return one(Action::OpenBrowser(page));
                }
                match key.code {
                    KeyCode::Esc => one(Action::Back),
                    _ => none(),
                }
            },
            QuizPhase::Captcha(_) => self.key_captcha(key),
            QuizPhase::Finished | QuizPhase::Error(_) => match key.code {
                KeyCode::Enter | KeyCode::Esc => one(Action::Back),
                _ => none(),
            },
            QuizPhase::FetchingQuestion | QuizPhase::Running => match key.code {
                KeyCode::Esc => one(Action::Back),
                KeyCode::Down => {
                    self.history_scroll = increased(self.history_scroll, usize::MAX);
                    none()
                },
                KeyCode::Up => {
                    self.history_scroll = decreased(self.history_scroll, 1);
                    none()
                },
                _ => none(),
            },
        }
    }

    fn key_login_timeout(&mut self, code: KeyCode, retry: bool) -> (actions: Vec<Action>)
        requires
            old(self)@.wf(),
            old(self)@.phase == (PhaseView::LoginTimeout { retry }),
        ensures
            (final(self)@, crate::state::action_views(actions@)) == old(self)@.quiz_key(
                (KeyEvent { code, control: false }),
            ),
            final(self)@.wf(),
    {
        match code {
            KeyCode::Up => {
                self.phase = QuizPhase::LoginTimeout { retry: true };
                none()
            },
            KeyCode::Down => {
                self.phase = QuizPhase::LoginTimeout { retry: false };
                none()
            },
            KeyCode::Enter => {
                if retry {
                    one(Action::Login)
                } else {
                    one(Action::Back)
                }
            },
            _ => none(),
        }
    }

    fn key_captcha(&mut self, key: KeyEvent) -> (actions: Vec<Action>)
        requires
            old(self)@.wf(),
            old(self)@.phase is Captcha,
        ensures
            (final(self)@, crate::state::action_views(actions@)) == old(self)@.captcha_key(
                old(self)@.phase->Captcha_0,
                key,
            ),
            final(self)@.wf(),
    {
        let mut phase = QuizPhase::NotConfigured;
        std::mem::swap(&mut phase, &mut self.phase);
        let mut captcha = match phase {
            QuizPhase::Captcha(captcha) => captcha,
            _ => {
                return none();
            },
        };
        if let KeyCode::Esc = key.code {
            return two(Action::Back, Action::ForgetPhase);
        }
        if shortcut(key, 'r') {
            return self.refresh_captcha(&captcha);
        }
        if shortcut(key, 'b') {
            let url = captcha.captcha_url.clone();
            self.phase = QuizPhase::Captcha(captcha);
            return one(Action::OpenBrowser(url));
        }
        if let (KeyCode::Enter, CaptchaFocus::Submit) = (key.code, captcha.focus) {
            return self.submit_captcha(captcha);
        }
        captcha.edit(key.code);
        self.phase = QuizPhase::Captcha(captcha);
        none()
    }

    /// Fetches another captcha; what was selected is kept.
    fn refresh_captcha(&mut self, captcha: &CaptchaState) -> (actions: Vec<Action>)
        requires
            old(self)@.wf(),
        ensures
            final(self)@ == (AppView {
                captcha_preserve: Some(captcha@.preserved()),
                phase: PhaseView::FetchingQuestion,
                ..old(self)@
            }),
            crate::state::action_views(actions@) == seq![ActionView::FetchCaptcha],
            final(self)@.wf(),
    {
        let input = String::new();
        assert(input@ =~= seq![]);
        self.captcha_preserve = Some(
            CaptchaPreserve {
                selected: selected_flags(&captcha.categories),
                cat_focus: captcha.cat_focus,
                focus: captcha.focus,
                input,
            },
        );
        self.phase = QuizPhase::FetchingQuestion;
        one(Action::FetchCaptcha)
    }

    fn submit_captcha(&mut self, captcha: CaptchaState) -> (actions: Vec<Action>)
        requires
            old(self)@.wf(),
        ensures
            (final(self)@, crate::state::action_views(actions@)) == old(self)@.submitted(captcha@),
            final(self)@.wf(),
    {
        let mut captcha = captcha;
        if let Some(error) = captcha.describe_missing() {
            captcha.error = error;
            self.phase = QuizPhase::Captcha(captcha);
            return none();
        }
        let ids = text::joined(&ids_of_selected(&captcha.categories), ",");
        self.selected_categories = names_of_selected(&captcha.categories);
        self.phase = QuizPhase::FetchingQuestion;
        two(
            Action::SaveCategories,
            Action::SubmitCaptcha { input: captcha.input, token: captcha.captcha_token, ids },
        )
    }
}

/// A filter never lets through more than there is.
proof fn lemma_offered_len(x: AppView)
    ensures
        x.offered().len() <= x.models.len(),
{
    let needle = crate::llm::models::lowercased(text::trim(x.model_filter));
    x.models.lemma_filter_len(
        |model: crate::llm::models::ModelView| crate::llm::models::found(model, needle),
    );
}

} // verus!
