//! What the user interface holds.
use crate::config::{ConfigView, LlmConfig};
use crate::llm::models::{ModelEntry, ModelView};
use crate::llm::protocol::Protocol;
use crate::text;
use vstd::prelude::*;
use vstd::string::*;

verus! {

broadcast use {vstd::seq_lib::group_seq_properties, vstd::string::group_string_axioms};

#[derive(Debug, Clone, Copy, PartialEq, Eq, Structural)]
pub enum Page {
    Home,
    Config,
    Quiz,
}

/// The rows of the home page.
#[derive(Debug, Clone, Copy, PartialEq, Eq, Structural)]
pub enum HomeSelection {
    StartQuiz,
    Config,
    Quit,
}

/// The rows of the settings page.
#[derive(Debug, Clone, Copy, PartialEq, Eq, Structural)]
pub enum ConfigFocus {
    BaseUrl,
    Model,
    ApiKey,
    Protocol,
    ThinkingToggle,
    ThinkingEffort,
    FastModeToggle,
    SaveBtn,
    TemplateBtn,
    ResetBtn,
}

/// The parts of the captcha page.
#[derive(Debug, Clone, Copy, PartialEq, Eq, Structural)]
pub enum CaptchaFocus {
    Categories,
    Input,
    Submit,
}

/// A category of questions.
#[derive(Debug, PartialEq, Eq)]
pub struct Category {
    pub id: u64,
    pub name: String,
    pub selected: bool,
}

/// What a category holds.
#[verifier::ext_equal]
pub struct CategoryView {
    pub id: u64,
    pub name: Seq<char>,
    pub selected: bool,
}

impl View for Category {
    type V = CategoryView;

    open spec fn view(&self) -> CategoryView {
        CategoryView { id: self.id, name: self.name@, selected: self.selected }
    }
}

/// What the categories of a list hold.
pub open spec fn category_views(categories: Seq<Category>) -> Seq<CategoryView> {
    categories.map_values(|category: Category| category@)
}

/// The captcha page.
#[derive(Debug, PartialEq, Eq)]
pub struct CaptchaState {
    pub captcha_url: String,
    pub captcha_token: String,
    pub categories: Vec<Category>,
    /// The category that the cursor is on.
    pub cat_focus: usize,
    pub focus: CaptchaFocus,
    pub input: String,
    pub error: String,
}

/// What the captcha page holds.
#[verifier::ext_equal]
pub struct CaptchaView {
    pub captcha_url: Seq<char>,
    pub captcha_token: Seq<char>,
    pub categories: Seq<CategoryView>,
    pub cat_focus: usize,
    pub focus: CaptchaFocus,
    pub input: Seq<char>,
    pub error: Seq<char>,
}

impl View for CaptchaState {
    type V = CaptchaView;

    open spec fn view(&self) -> CaptchaView {
        CaptchaView {
            captcha_url: self.captcha_url@,
            captcha_token: self.captcha_token@,
            categories: category_views(self.categories@),
            cat_focus: self.cat_focus,
            focus: self.focus,
            input: self.input@,
            error: self.error@,
        }
    }
}

/// What is kept of the captcha page while another captcha is fetched.
#[derive(Debug, PartialEq, Eq)]
pub struct CaptchaPreserve {
    pub selected: Vec<bool>,
    pub cat_focus: usize,
    pub focus: CaptchaFocus,
    pub input: String,
}

/// What is kept of the captcha page.
#[verifier::ext_equal]
pub struct PreserveView {
    pub selected: Seq<bool>,
    pub cat_focus: usize,
    pub focus: CaptchaFocus,
    pub input: Seq<char>,
}

impl View for CaptchaPreserve {
    type V = PreserveView;

    open spec fn view(&self) -> PreserveView {
        PreserveView {
            selected: self.selected@,
            cat_focus: self.cat_focus,
            focus: self.focus,
            input: self.input@,
        }
    }
}

/// Where the quiz stands.
#[derive(Debug, PartialEq, Eq)]
pub enum QuizPhase {
    NotConfigured,
    LoginTimeout { retry: bool },
    WaitingScan { url: String },
    Captcha(CaptchaState),
    FetchingQuestion,
    /// A question is shown or answered, or there is something to wait for.
    Running,
    Finished,
    Error(String),
}

/// Where the quiz stands.
#[verifier::ext_equal]
pub enum PhaseView {
    NotConfigured,
    LoginTimeout { retry: bool },
    WaitingScan { url: Seq<char> },
    Captcha(CaptchaView),
    FetchingQuestion,
    Running,
    Finished,
    Error(Seq<char>),
}

impl View for QuizPhase {
    type V = PhaseView;

    open spec fn view(&self) -> PhaseView {
        match self {
            QuizPhase::NotConfigured => PhaseView::NotConfigured,
            QuizPhase::LoginTimeout { retry } => PhaseView::LoginTimeout { retry: *retry },
            QuizPhase::WaitingScan { url } => PhaseView::WaitingScan { url: url@ },
            QuizPhase::Captcha(captcha) => PhaseView::Captcha(captcha@),
            QuizPhase::FetchingQuestion => PhaseView::FetchingQuestion,
            QuizPhase::Running => PhaseView::Running,
            QuizPhase::Finished => PhaseView::Finished,
            QuizPhase::Error(message) => PhaseView::Error(message@),
        }
    }
}

/// The user interface, as far as keys read or change it.
#[derive(Debug, PartialEq, Eq)]
pub struct App {
    pub page: Page,
    pub home_sel: HomeSelection,
    pub quit: bool,
    /// The settings that are in force.
    pub config: Option<LlmConfig>,
    /// Address, model and key as they are edited.
    pub cfg_fields: [String; 3],
    /// The cursors in them, in bytes.
    pub cfg_cursors: [usize; 3],
    pub cfg_focus: ConfigFocus,
    pub cfg_protocol: Protocol,
    pub cfg_thinking: bool,
    /// Low, high or maximal.
    pub cfg_effort: usize,
    pub cfg_fast_mode: bool,
    pub cfg_preset_open: bool,
    pub cfg_preset_sel: usize,
    pub config_confirm_reset: bool,
    /// To go back, to log out, or to reset all.
    pub config_reset_choice: usize,
    pub model_picker_open: bool,
    pub models: Vec<ModelEntry>,
    pub model_filter: String,
    pub model_cursor: usize,
    pub phase: QuizPhase,
    pub history_scroll: usize,
    pub captcha_preserve: Option<CaptchaPreserve>,
    pub selected_categories: Vec<String>,
}

/// What the user interface holds.
#[verifier::ext_equal]
pub struct AppView {
    pub page: Page,
    pub home_sel: HomeSelection,
    pub quit: bool,
    pub config: Option<ConfigView>,
    pub cfg_fields: Seq<Seq<char>>,
    pub cfg_cursors: Seq<usize>,
    pub cfg_focus: ConfigFocus,
    pub cfg_protocol: Protocol,
    pub cfg_thinking: bool,
    pub cfg_effort: usize,
    pub cfg_fast_mode: bool,
    pub cfg_preset_open: bool,
    pub cfg_preset_sel: usize,
    pub config_confirm_reset: bool,
    pub config_reset_choice: usize,
    pub model_picker_open: bool,
    pub models: Seq<ModelView>,
    pub model_filter: Seq<char>,
    pub model_cursor: usize,
    pub phase: PhaseView,
    pub history_scroll: usize,
    pub captcha_preserve: Option<PreserveView>,
    pub selected_categories: Seq<Seq<char>>,
}

impl View for App {
    type V = AppView;

    open spec fn view(&self) -> AppView {
        AppView {
            page: self.page,
            home_sel: self.home_sel,
            quit: self.quit,
            config: match self.config {
                Some(config) => Some(config@),
                None => None,
            },
            cfg_fields: text::texts(self.cfg_fields@),
            cfg_cursors: self.cfg_cursors@,
            cfg_focus: self.cfg_focus,
            cfg_protocol: self.cfg_protocol,
            cfg_thinking: self.cfg_thinking,
            cfg_effort: self.cfg_effort,
            cfg_fast_mode: self.cfg_fast_mode,
            cfg_preset_open: self.cfg_preset_open,
            cfg_preset_sel: self.cfg_preset_sel,
            config_confirm_reset: self.config_confirm_reset,
            config_reset_choice: self.config_reset_choice,
            model_picker_open: self.model_picker_open,
            models: crate::llm::models::model_views(self.models@),
            model_filter: self.model_filter@,
            model_cursor: self.model_cursor,
            phase: self.phase@,
            history_scroll: self.history_scroll,
            captcha_preserve: match self.captcha_preserve {
                Some(preserve) => Some(preserve@),
                None => None,
            },
            selected_categories: text::texts(self.selected_categories@),
        }
    }
}

/// A key.
#[derive(Debug, Clone, Copy, PartialEq, Eq, Structural)]
pub enum KeyCode {
    Up,
    Down,
    Left,
    Right,
    Enter,
    Esc,
    Backspace,
    Char(char),
    /// A key that means nothing here.
    Other,
}

/// A key that was pressed.
#[derive(Debug, Clone, Copy, PartialEq, Eq, Structural)]
pub struct KeyEvent {
    pub code: KeyCode,
    /// Whether the control key was held.
    pub control: bool,
}

/// What a key asks for beyond the change that it has made to what is shown. The actions are
/// carried out in their order.
#[derive(Debug, PartialEq, Eq)]
pub enum Action {
    /// Go to a page.
    Go(Page),
    /// Go back to the page before.
    Back,
    /// Forget where the quiz stood, whatever going back made of it.
    ForgetPhase,
    /// Log in, and go on with the quiz.
    Login,
    /// Log in where the quiz is the page that is shown now.
    LoginOnQuiz,
    FetchModels,
    /// Drop the image of the captcha and fetch another.
    FetchCaptcha,
    SubmitCaptcha { input: String, token: String, ids: String },
    /// Store the settings that are in force.
    SaveConfig,
    /// Store the selected categories.
    SaveCategories,
    Logout,
    ResetAll,
    OpenBrowser(String),
}

/// What a key asks for.
#[verifier::ext_equal]
pub enum ActionView {
    Go(Page),
    Back,
    ForgetPhase,
    Login,
    LoginOnQuiz,
    FetchModels,
    FetchCaptcha,
    SubmitCaptcha { input: Seq<char>, token: Seq<char>, ids: Seq<char> },
    SaveConfig,
    SaveCategories,
    Logout,
    ResetAll,
    OpenBrowser(Seq<char>),
}

impl View for Action {
    type V = ActionView;

    open spec fn view(&self) -> ActionView {
        match self {
            Action::Go(page) => ActionView::Go(*page),
            Action::Back => ActionView::Back,
            Action::ForgetPhase => ActionView::ForgetPhase,
            Action::Login => ActionView::Login,
            Action::LoginOnQuiz => ActionView::LoginOnQuiz,
            Action::FetchModels => ActionView::FetchModels,
            Action::FetchCaptcha => ActionView::FetchCaptcha,
            Action::SubmitCaptcha { input, token, ids } => ActionView::SubmitCaptcha {
                input: input@,
                token: token@,
                ids: ids@,
            },
            Action::SaveConfig => ActionView::SaveConfig,
            Action::SaveCategories => ActionView::SaveCategories,
            Action::Logout => ActionView::Logout,
            Action::ResetAll => ActionView::ResetAll,
            Action::OpenBrowser(url) => ActionView::OpenBrowser(url@),
        }
    }
}

/// What the actions of a list hold.
pub open spec fn action_views(actions: Seq<Action>) -> Seq<ActionView> {
    actions.map_values(|action: Action| action@)
}

impl AppView {
    /// The effort and the choice in the dialog are ones that there are, and the cursor in
    /// the list of models, or at its end, can go on by a page.
    pub open spec fn wf(self) -> bool {
        &&& self.cfg_fields.len() == 3
        &&& self.cfg_cursors.len() == 3
        &&& self.cfg_effort < 3
        &&& self.config_reset_choice <= 2
        &&& self.model_cursor + crate::llm::models::MODELS_PER_PAGE <= usize::MAX
        &&& self.models.len() + crate::llm::models::MODELS_PER_PAGE <= usize::MAX
    }
}

} // verus!
