use bili_hardcore::config::{LlmConfig, PresetConfig, PresetTemplate};
use bili_hardcore::llm::models::ModelEntry;
use bili_hardcore::llm::Protocol;
use bili_hardcore::state::{
    Action, App, CaptchaFocus, CaptchaState, Category, ConfigFocus, HomeSelection, KeyCode,
    KeyEvent, Page, QuizPhase,
};

fn app(page: Page) -> App {
    App {
        page,
        home_sel: HomeSelection::StartQuiz,
        quit: false,
        config: None,
        cfg_fields: [String::new(), String::new(), String::new()],
        cfg_cursors: [0, 0, 0],
        cfg_focus: ConfigFocus::BaseUrl,
        cfg_protocol: Protocol::OpenAiChat,
        cfg_thinking: false,
        cfg_effort: 1,
        cfg_fast_mode: false,
        cfg_preset_open: false,
        cfg_preset_sel: 0,
        config_confirm_reset: false,
        config_reset_choice: 0,
        model_picker_open: false,
        models: Vec::new(),
        model_filter: String::new(),
        model_cursor: 0,
        phase: QuizPhase::Running,
        history_scroll: 0,
        captcha_preserve: None,
        selected_categories: Vec::new(),
    }
}

fn settings() -> LlmConfig {
    LlmConfig {
        base_url: "https://a/v1/messages".to_string(),
        model: "m".to_string(),
        api_key: "k".to_string(),
        protocol: None,
        enable_thinking: false,
        reasoning_effort: "high".to_string(),
        enable_fast_mode: false,
    }
}

fn presets() -> Vec<PresetTemplate> {
    [("one", Protocol::Claude), ("two", Protocol::Jev)]
        .into_iter()
        .map(|(name, protocol)| PresetTemplate {
            protocol,
            provider_name: name.to_string(),
            config: PresetConfig {
                base_url: format!("https://{name}"),
                model: format!("model {name}"),
            },
        })
        .collect()
}

fn press(app: &mut App, code: KeyCode) -> Vec<Action> {
    app.handle_key(KeyEvent { code, control: false }, &presets())
}

fn press_control(app: &mut App, letter: char) -> Vec<Action> {
    app.handle_key(
        KeyEvent {
            code: KeyCode::Char(letter),
            control: true,
        },
        &presets(),
    )
}

fn type_text(app: &mut App, text: &str) {
    for c in text.chars() {
        assert!(press(app, KeyCode::Char(c)).is_empty());
    }
}

#[test]
fn the_home_page_goes_round_and_opens_pages() {
    let mut app = app(Page::Home);
    press(&mut app, KeyCode::Up);
    assert_eq!(app.home_sel, HomeSelection::Quit);
    press(&mut app, KeyCode::Enter);
    assert!(app.quit);
    press(&mut app, KeyCode::Down);
    assert_eq!(app.home_sel, HomeSelection::StartQuiz);
    assert_eq!(press(&mut app, KeyCode::Enter), vec![Action::Go(Page::Quiz)]);
    assert_eq!(app.phase, QuizPhase::NotConfigured);
    app.config = Some(settings());
    assert_eq!(
        press(&mut app, KeyCode::Enter),
        vec![Action::Go(Page::Quiz), Action::Login]
    );
    press(&mut app, KeyCode::Down);
    assert_eq!(press(&mut app, KeyCode::Enter), vec![Action::Go(Page::Config)]);
    assert_eq!(app.cfg_fields[0], "https://a/v1/messages");
    assert_eq!(app.cfg_cursors, [21, 1, 1]);
    assert_eq!(app.cfg_protocol, Protocol::Claude);
    assert!(!app.cfg_preset_open);
}

#[test]
fn first_time_users_are_offered_the_presets() {
    let mut app = app(Page::Home);
    app.home_sel = HomeSelection::Config;
    app.cfg_preset_sel = 7;
    press(&mut app, KeyCode::Enter);
    assert!(app.cfg_preset_open);
    assert_eq!(app.cfg_preset_sel, 0);
}

#[test]
fn a_preset_fills_in_address_model_and_protocol() {
    let mut app = app(Page::Config);
    app.cfg_preset_open = true;
    for _ in 0..3 {
        press(&mut app, KeyCode::Down);
    }
    assert_eq!(app.cfg_preset_sel, 1);
    press(&mut app, KeyCode::Up);
    press(&mut app, KeyCode::Up);
    assert_eq!(app.cfg_preset_sel, 0);
    press(&mut app, KeyCode::Enter);
    assert_eq!(app.cfg_fields[0], "https://one");
    assert_eq!(app.cfg_fields[1], "model one");
    assert_eq!(app.cfg_cursors, [11, 9, 0]);
    assert_eq!(app.cfg_protocol, Protocol::Claude);
    assert!(!app.cfg_preset_open);
    app.cfg_preset_open = true;
    press(&mut app, KeyCode::Esc);
    assert!(!app.cfg_preset_open);
}

#[test]
fn fields_are_edited_at_the_cursor() {
    let mut app = app(Page::Config);
    type_text(&mut app, "ac ");
    press(&mut app, KeyCode::Left);
    press(&mut app, KeyCode::Left);
    type_text(&mut app, "b");
    assert_eq!(app.cfg_fields[0], "abc ");
    assert_eq!(app.cfg_cursors[0], 2);
    press(&mut app, KeyCode::Backspace);
    assert_eq!(app.cfg_fields[0], "ac ");
    for _ in 0..5 {
        press(&mut app, KeyCode::Right);
    }
    assert_eq!(app.cfg_cursors[0], 3);
    for _ in 0..5 {
        press(&mut app, KeyCode::Backspace);
    }
    assert_eq!(app.cfg_fields[0], "");
    assert_eq!(app.cfg_cursors[0], 0);
    type_text(&mut app, "文");
    assert_eq!(app.cfg_fields[0], "文");
    assert_eq!(app.cfg_cursors[0], 1);
}

#[test]
fn rows_follow_each_other() {
    let mut app = app(Page::Config);
    let mut rows = Vec::new();
    for _ in 0..10 {
        press(&mut app, KeyCode::Down);
        rows.push(app.cfg_focus);
    }
    assert_eq!(
        rows,
        [
            ConfigFocus::Model,
            ConfigFocus::ApiKey,
            ConfigFocus::Protocol,
            ConfigFocus::ThinkingToggle,
            ConfigFocus::ThinkingEffort,
            ConfigFocus::FastModeToggle,
            ConfigFocus::SaveBtn,
            ConfigFocus::TemplateBtn,
            ConfigFocus::ResetBtn,
            ConfigFocus::BaseUrl,
        ]
    );
    press(&mut app, KeyCode::Up);
    assert_eq!(app.cfg_focus, ConfigFocus::ResetBtn);

    app.cfg_protocol = Protocol::Jev;
    app.cfg_focus = ConfigFocus::Protocol;
    press(&mut app, KeyCode::Down);
    assert_eq!(app.cfg_focus, ConfigFocus::FastModeToggle);
    press(&mut app, KeyCode::Up);
    assert_eq!(app.cfg_focus, ConfigFocus::ThinkingToggle);
}

#[test]
fn switches_are_turned_by_enter_space_and_arrows() {
    let mut app = app(Page::Config);
    app.cfg_focus = ConfigFocus::Protocol;
    press(&mut app, KeyCode::Char(' '));
    assert_eq!(app.cfg_protocol, Protocol::OpenAiResponses);
    press(&mut app, KeyCode::Left);
    press(&mut app, KeyCode::Left);
    assert_eq!(app.cfg_protocol, Protocol::Jev);
    press(&mut app, KeyCode::Right);
    press(&mut app, KeyCode::Enter);
    assert_eq!(app.cfg_protocol, Protocol::OpenAiResponses);
    app.cfg_focus = ConfigFocus::ThinkingEffort;
    press(&mut app, KeyCode::Right);
    press(&mut app, KeyCode::Right);
    assert_eq!(app.cfg_effort, 0);
    press(&mut app, KeyCode::Left);
    assert_eq!(app.cfg_effort, 2);
    app.cfg_focus = ConfigFocus::ThinkingToggle;
    press(&mut app, KeyCode::Enter);
    assert!(app.cfg_thinking);
    app.cfg_focus = ConfigFocus::FastModeToggle;
    press(&mut app, KeyCode::Char(' '));
    assert!(app.cfg_fast_mode);
}

#[test]
fn settings_are_saved_when_they_are_complete() {
    let mut app = app(Page::Config);
    app.cfg_focus = ConfigFocus::SaveBtn;
    app.cfg_fields = [
        "https://a/v1/chat/completions".to_string(),
        "m".to_string(),
        String::new(),
    ];
    assert!(press(&mut app, KeyCode::Enter).is_empty());
    assert_eq!(app.config, None);
    app.cfg_fields[2] = "k".to_string();
    app.cfg_effort = 2;
    assert_eq!(
        press(&mut app, KeyCode::Enter),
        vec![Action::SaveConfig, Action::Back, Action::LoginOnQuiz]
    );
    assert_eq!(app.cfg_fields[0], "https://a");
    let saved = app.config.unwrap();
    assert_eq!(saved.base_url, "https://a");
    assert_eq!(saved.protocol, Some(Protocol::OpenAiChat));
    assert_eq!(saved.reasoning_effort, "max");
}

#[test]
fn resetting_asks_first() {
    let mut app = app(Page::Config);
    app.cfg_focus = ConfigFocus::ResetBtn;
    press(&mut app, KeyCode::Enter);
    assert!(app.config_confirm_reset);
    press(&mut app, KeyCode::Down);
    assert_eq!(press(&mut app, KeyCode::Enter), vec![Action::Logout]);
    press(&mut app, KeyCode::Down);
    press(&mut app, KeyCode::Down);
    assert_eq!(app.config_reset_choice, 2);
    assert_eq!(press(&mut app, KeyCode::Enter), vec![Action::ResetAll]);
    press(&mut app, KeyCode::Up);
    press(&mut app, KeyCode::Up);
    press(&mut app, KeyCode::Up);
    assert!(press(&mut app, KeyCode::Enter).is_empty());
    assert!(!app.config_confirm_reset);
    assert_eq!(press(&mut app, KeyCode::Esc), vec![Action::Back]);
}

fn with_models(count: usize) -> App {
    let mut app = app(Page::Config);
    app.cfg_focus = ConfigFocus::Model;
    app.models = (0..count)
        .map(|i| ModelEntry {
            id: format!("model-{i}"),
            label: format!("Label {i}"),
            detail: None,
        })
        .collect();
    app
}

#[test]
fn models_are_picked_from_a_filtered_list() {
    let mut app = with_models(50);
    assert_eq!(press(&mut app, KeyCode::Enter), vec![Action::FetchModels]);
    assert!(app.model_picker_open);
    press(&mut app, KeyCode::Right);
    press(&mut app, KeyCode::Right);
    press(&mut app, KeyCode::Right);
    assert_eq!(app.model_cursor, 49);
    press(&mut app, KeyCode::Left);
    press(&mut app, KeyCode::Down);
    assert_eq!(app.model_cursor, 30);
    type_text(&mut app, "LABEL 1");
    assert_eq!(app.model_cursor, 0);
    press(&mut app, KeyCode::Down);
    press(&mut app, KeyCode::Enter);
    assert_eq!(app.cfg_fields[1], "model-10");
    assert_eq!(app.cfg_cursors[1], 8);
    assert!(!app.model_picker_open);
}

#[test]
fn escape_empties_the_filter_before_it_closes_the_list() {
    let mut app = with_models(3);
    app.model_picker_open = true;
    type_text(&mut app, "zz");
    press(&mut app, KeyCode::Enter);
    assert!(app.model_picker_open);
    press(&mut app, KeyCode::Backspace);
    assert_eq!(app.model_filter, "z");
    press(&mut app, KeyCode::Esc);
    assert_eq!(app.model_filter, "");
    assert!(app.model_picker_open);
    app.model_cursor = 17;
    press(&mut app, KeyCode::Other);
    assert_eq!(app.model_cursor, 2);
    press(&mut app, KeyCode::Esc);
    assert!(!app.model_picker_open);
}

#[test]
fn the_quiz_page_answers_by_its_phase() {
    let mut quiz = app(Page::Quiz);
    quiz.phase = QuizPhase::NotConfigured;
    assert_eq!(press(&mut quiz, KeyCode::Enter), vec![Action::Go(Page::Config)]);
    assert_eq!(press(&mut quiz, KeyCode::Esc), vec![Action::Back]);

    quiz.phase = QuizPhase::LoginTimeout { retry: false };
    assert_eq!(press(&mut quiz, KeyCode::Enter), vec![Action::Back]);
    press(&mut quiz, KeyCode::Up);
    assert_eq!(press(&mut quiz, KeyCode::Enter), vec![Action::Login]);
    press(&mut quiz, KeyCode::Down);
    assert_eq!(quiz.phase, QuizPhase::LoginTimeout { retry: false });

    quiz.phase = QuizPhase::WaitingScan {
        url: "https://a/?b=c d".to_string(),
    };
    assert_eq!(press_control(&mut quiz, 'r'), vec![Action::Login]);
    assert_eq!(
        press_control(&mut quiz, 'b'),
        vec![Action::OpenBrowser(
            "https://api.cl2wm.cn/api/qrcode/code?text=https%3A%2F%2Fa%2F%3Fb%3Dc%20d".to_string()
        )]
    );
    assert!(press(&mut quiz, KeyCode::Char('r')).is_empty());
    assert_eq!(press(&mut quiz, KeyCode::Esc), vec![Action::Back]);

    quiz.phase = QuizPhase::Error("x".to_string());
    assert_eq!(press(&mut quiz, KeyCode::Enter), vec![Action::Back]);
    quiz.phase = QuizPhase::Finished;
    assert!(press(&mut quiz, KeyCode::Down).is_empty());

    quiz.phase = QuizPhase::Running;
    press(&mut quiz, KeyCode::Up);
    assert_eq!(quiz.history_scroll, 0);
    press(&mut quiz, KeyCode::Down);
    assert_eq!(quiz.history_scroll, 1);
    quiz.history_scroll = usize::MAX;
    press(&mut quiz, KeyCode::Down);
    assert_eq!(quiz.history_scroll, usize::MAX);
}

fn with_captcha() -> App {
    let mut app = app(Page::Quiz);
    app.phase = QuizPhase::Captcha(CaptchaState {
        captcha_url: "https://captcha".to_string(),
        captcha_token: "token".to_string(),
        categories: (1..=4)
            .map(|id| Category {
                id,
                name: format!("c{id}"),
                selected: false,
            })
            .collect(),
        cat_focus: 0,
        focus: CaptchaFocus::Categories,
        input: String::new(),
        error: "old".to_string(),
    });
    app
}

fn captcha(app: &App) -> &CaptchaState {
    match &app.phase {
        QuizPhase::Captcha(captcha) => captcha,
        other => panic!("{other:?}"),
    }
}

#[test]
fn no_more_than_three_categories_are_selected() {
    let mut app = with_captcha();
    for _ in 0..4 {
        press(&mut app, KeyCode::Char(' '));
        press(&mut app, KeyCode::Down);
    }
    let selected: Vec<bool> = captcha(&app).categories.iter().map(|c| c.selected).collect();
    assert_eq!(selected, [true, true, true, false]);
    assert_eq!(captcha(&app).focus, CaptchaFocus::Input);
    assert_eq!(captcha(&app).error, "");
    press(&mut app, KeyCode::Up);
    press(&mut app, KeyCode::Up);
    press(&mut app, KeyCode::Char(' '));
    assert!(!captcha(&app).categories[2].selected);
}

#[test]
fn a_captcha_is_submitted_when_it_is_complete() {
    let mut app = with_captcha();
    press(&mut app, KeyCode::Up);
    assert_eq!(captcha(&app).focus, CaptchaFocus::Submit);
    press(&mut app, KeyCode::Enter);
    assert_eq!(captcha(&app).error, "请选择分类并输入验证码");
    press(&mut app, KeyCode::Down);
    press(&mut app, KeyCode::Char(' '));
    press(&mut app, KeyCode::Down);
    press(&mut app, KeyCode::Down);
    press(&mut app, KeyCode::Char(' '));
    for _ in 0..3 {
        press(&mut app, KeyCode::Down);
    }
    assert_eq!(captcha(&app).focus, CaptchaFocus::Submit);
    press(&mut app, KeyCode::Enter);
    assert_eq!(captcha(&app).error, "请输入验证码");
    press(&mut app, KeyCode::Up);
    type_text(&mut app, "x y");
    press(&mut app, KeyCode::Backspace);
    assert_eq!(captcha(&app).input, "x ");
    press(&mut app, KeyCode::Down);
    assert_eq!(
        press(&mut app, KeyCode::Enter),
        vec![
            Action::SaveCategories,
            Action::SubmitCaptcha {
                input: "x ".to_string(),
                token: "token".to_string(),
                ids: "1,3".to_string(),
            }
        ]
    );
    assert_eq!(app.selected_categories, ["c1", "c3"]);
    assert_eq!(app.phase, QuizPhase::FetchingQuestion);
}

#[test]
fn a_captcha_without_categories_is_not_submitted() {
    let mut app = with_captcha();
    press(&mut app, KeyCode::Up);
    press(&mut app, KeyCode::Up);
    type_text(&mut app, "a");
    press(&mut app, KeyCode::Down);
    assert!(press(&mut app, KeyCode::Enter).is_empty());
    assert_eq!(captcha(&app).error, "请选择分类");
}

#[test]
fn shortcuts_work_on_the_captcha_page() {
    let mut app = with_captcha();
    press(&mut app, KeyCode::Char(' '));
    assert_eq!(
        press_control(&mut app, 'b'),
        vec![Action::OpenBrowser("https://captcha".to_string())]
    );
    assert_eq!(press_control(&mut app, 'r'), vec![Action::FetchCaptcha]);
    assert_eq!(app.phase, QuizPhase::FetchingQuestion);
    let kept = app.captcha_preserve.unwrap();
    assert_eq!(kept.selected, [true, false, false, false]);
    assert_eq!(kept.input, "");

    let mut app = with_captcha();
    assert_eq!(
        press(&mut app, KeyCode::Esc),
        vec![Action::Back, Action::ForgetPhase]
    );
    assert_eq!(app.phase, QuizPhase::NotConfigured);
}

#[test]
fn a_character_of_several_bytes_is_taken_back() {
    let mut app = app(Page::Config);
    type_text(&mut app, "ab");
    press(&mut app, KeyCode::Left);
    type_text(&mut app, "文");
    assert_eq!(app.cfg_fields[0], "a文b");
    press(&mut app, KeyCode::Backspace);
    assert_eq!(app.cfg_fields[0], "ab");
    assert_eq!(app.cfg_cursors[0], 1);
}

#[test]
fn only_space_on_the_categories_changes_the_selection() {
    let mut app = with_captcha();
    press(&mut app, KeyCode::Char(' '));
    let selection = |app: &App| -> Vec<(u64, String, bool)> {
        let categories = &captcha(app).categories;
        categories.iter().map(|c| (c.id, c.name.clone(), c.selected)).collect()
    };
    let selected = selection(&app);
    assert_eq!(selected[0], (1, "c1".to_string(), true));
    for code in [
        KeyCode::Down,
        KeyCode::Char('x'),
        KeyCode::Enter,
        KeyCode::Left,
        KeyCode::Backspace,
        KeyCode::Up,
        KeyCode::Up,
        KeyCode::Char(' '),
        KeyCode::Enter,
    ] {
        press(&mut app, code);
        assert_eq!(selection(&app), selected);
    }
}
