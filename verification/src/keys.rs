//! What holds of the keys.
use crate::config::PresetView;
use crate::state::{
    ActionView, AppView, CaptchaView, CategoryView, ConfigFocus, HomeSelection, KeyCode, KeyEvent,
    PhaseView,
};
use crate::text;
use vstd::prelude::*;

verus! {

broadcast use {vstd::seq_lib::group_seq_properties, vstd::string::group_string_axioms};

/// On the home page up and down undo each other, and three steps go round.
pub proof fn law_home_goes_round(row: HomeSelection)
    ensures
        crate::input::home_above(crate::input::home_below(row)) == row,
        crate::input::home_below(crate::input::home_above(row)) == row,
        crate::input::home_below(crate::input::home_below(crate::input::home_below(row))) == row,
{
}

/// On the settings page up undoes down. Where there is no switch for thinking, it does not on
/// the row of the protocol and on the row that is hidden last: from the row below both it
/// leads to the one between them.
pub proof fn law_up_undoes_down(row: ConfigFocus, thinks: bool)
    requires
        thinks || !(row is Protocol || row is ThinkingEffort),
    ensures
        crate::input::row_above(crate::input::row_below(row, thinks), thinks) == row,
{
}

/// On the settings page down undoes up, but for the hidden rows where there is no switch for
/// thinking.
pub proof fn law_down_undoes_up(row: ConfigFocus, thinks: bool)
    requires
        thinks || !(row is ThinkingToggle || row is ThinkingEffort),
    ensures
        crate::input::row_below(crate::input::row_above(row, thinks), thinks) == row,
{
}

/// The row so many steps down.
pub open spec fn rows_down(row: ConfigFocus, steps: nat, thinks: bool) -> ConfigFocus
    decreases steps,
{
    if steps == 0 {
        row
    } else {
        crate::input::row_below(rows_down(row, (steps - 1) as nat, thinks), thinks)
    }
}

/// Where on the settings page a row stands.
pub open spec fn place(row: ConfigFocus) -> int {
    match row {
        ConfigFocus::BaseUrl => 0,
        ConfigFocus::Model => 1,
        ConfigFocus::ApiKey => 2,
        ConfigFocus::Protocol => 3,
        ConfigFocus::ThinkingToggle => 4,
        ConfigFocus::ThinkingEffort => 5,
        ConfigFocus::FastModeToggle => 6,
        ConfigFocus::SaveBtn => 7,
        ConfigFocus::TemplateBtn => 8,
        ConfigFocus::ResetBtn => 9,
    }
}

proof fn lemma_rows_down(row: ConfigFocus, steps: nat)
    ensures
        place(rows_down(row, steps, true)) == (place(row) + steps) % 10,
    decreases steps,
{
    if steps > 0 {
        lemma_rows_down(row, (steps - 1) as nat);
    }
}

/// With a switch for thinking, ten steps down lead through all ten rows, each once, and back
/// to the first.
pub proof fn law_ten_steps_go_round(row: ConfigFocus, other: ConfigFocus)
    ensures
        rows_down(row, 10, true) == row,
        exists|steps: nat| steps < 10 && #[trigger] rows_down(row, steps, true) == other,
        forall|i: nat, j: nat|
            i < j < 10 ==> #[trigger] rows_down(row, i, true) != #[trigger] rows_down(
                row,
                j,
                true,
            ),
{
    lemma_rows_down(row, 10);
    let steps = ((place(other) - place(row)) % 10) as nat;
    lemma_rows_down(row, steps);
    assert(place(rows_down(row, steps, true)) == place(other));
    assert(rows_down(row, steps, true) == other);
    assert forall|i: nat, j: nat| i < j < 10 implies #[trigger] rows_down(row, i, true)
        != #[trigger] rows_down(row, j, true) by {
        lemma_rows_down(row, i);
        lemma_rows_down(row, j);
    }
}

/// The settings page after so many times the arrow down.
pub open spec fn after_downs(x: AppView, times: nat, presets: Seq<PresetView>) -> AppView
    decreases times,
{
    if times == 0 {
        x
    } else {
        after_downs(x, (times - 1) as nat, presets).config_key(KeyCode::Down, presets).0
    }
}

/// On the settings page the arrows up and down change the row and nothing else. With a switch
/// for thinking each undoes the other, and ten times down changes nothing.
pub proof fn law_rows_are_walked(x: AppView, times: nat, presets: Seq<PresetView>)
    requires
        x.on_rows(),
    ensures
        ({
            let thinks = crate::llm::protocol::thinks(x.cfg_protocol);
            let down = x.config_key(KeyCode::Down, presets).0;
            let up = x.config_key(KeyCode::Up, presets).0;
            &&& after_downs(x, times, presets) == (AppView {
                cfg_focus: rows_down(x.cfg_focus, times, thinks),
                ..x
            })
            &&& up == (AppView { cfg_focus: crate::input::row_above(x.cfg_focus, thinks), ..x })
            &&& thinks ==> down.config_key(KeyCode::Up, presets).0 == x
            &&& thinks ==> up.config_key(KeyCode::Down, presets).0 == x
            &&& thinks ==> after_downs(x, 10, presets) == x
        }),
{
    let thinks = crate::llm::protocol::thinks(x.cfg_protocol);
    let below = AppView { cfg_focus: crate::input::row_below(x.cfg_focus, thinks), ..x };
    let above = AppView { cfg_focus: crate::input::row_above(x.cfg_focus, thinks), ..x };
    lemma_one_row(x, presets);
    lemma_one_row(below, presets);
    lemma_one_row(above, presets);
    lemma_after_downs(x, times, presets);
    if thinks {
        law_up_undoes_down(x.cfg_focus, thinks);
        law_down_undoes_up(x.cfg_focus, thinks);
        lemma_after_downs(x, 10, presets);
        law_ten_steps_go_round(x.cfg_focus, x.cfg_focus);
    }
}

proof fn lemma_one_row(x: AppView, presets: Seq<PresetView>)
    requires
        x.on_rows(),
    ensures
        ({
            let thinks = crate::llm::protocol::thinks(x.cfg_protocol);
            &&& x.config_key(KeyCode::Down, presets).0 == (AppView {
                cfg_focus: crate::input::row_below(x.cfg_focus, thinks),
                ..x
            })
            &&& x.config_key(KeyCode::Up, presets).0 == (AppView {
                cfg_focus: crate::input::row_above(x.cfg_focus, thinks),
                ..x
            })
        }),
{
}

proof fn lemma_after_downs(x: AppView, times: nat, presets: Seq<PresetView>)
    requires
        x.on_rows(),
    ensures
        after_downs(x, times, presets) == (AppView {
            cfg_focus: rows_down(
                x.cfg_focus,
                times,
                crate::llm::protocol::thinks(x.cfg_protocol),
            ),
            ..x
        }),
    decreases times,
{
    if times > 0 {
        lemma_after_downs(x, (times - 1) as nat, presets);
    }
}

/// Going down never leads to a row on thinking where there is no switch for it.
pub proof fn law_hidden_rows_are_passed_over(row: ConfigFocus)
    ensures
        !(crate::input::row_below(row, false) is ThinkingToggle),
        !(crate::input::row_below(row, false) is ThinkingEffort),
{
}

/// On a row with a switch the arrows undo each other.
pub proof fn law_arrows_undo_each_other(x: AppView)
    requires
        x.wf(),
        x.cfg_focus is ThinkingEffort || x.cfg_focus is Protocol,
    ensures
        x.row_left().row_right() == x,
        x.row_right().row_left() == x,
{
    crate::llm::address::law_protocols_go_round(x.cfg_protocol);
}

/// No key changes the page by itself; a change of page is an action.
pub proof fn law_page_stays(x: AppView, key: KeyEvent, presets: Seq<PresetView>)
    ensures
        x.key(key, presets).0.page == x.page,
{
}

/// A key that means nothing changes nothing, but that the cursor is put back into the list
/// of models where that is open.
pub proof fn law_other_keys_do_nothing(x: AppView, control: bool, presets: Seq<PresetView>)
    ensures
        ({
            let (after, actions) = x.key(KeyEvent { code: KeyCode::Other, control }, presets);
            actions.len() == 0 && (after == x || after == x.clamped())
        }),
{
}

/// After every key in the list of models the cursor is in the list.
pub proof fn law_cursor_stays_in_the_list(x: AppView, code: KeyCode)
    ensures
        ({
            let after = x.picker_key(code);
            after.model_cursor < after.offered().len() || (after.offered().len() == 0
                && after.model_cursor == 0)
        }),
{
}

/// In the list of models Esc empties the filter where there is one, and the list stays open;
/// else it closes the list. A second Esc thus always closes it, and no field is changed.
pub proof fn law_esc_clears_then_closes(x: AppView)
    requires
        x.model_picker_open,
    ensures
        ({
            let once = x.picker_key(KeyCode::Esc);
            let twice = once.picker_key(KeyCode::Esc);
            &&& x.model_filter.len() > 0 ==> once.model_picker_open && once.model_filter.len() == 0
                && once.model_cursor == 0
            &&& x.model_filter.len() == 0 ==> !once.model_picker_open
            &&& !twice.model_picker_open
            &&& once.cfg_fields == x.cfg_fields && twice.cfg_fields == x.cfg_fields
        }),
{
}

/// Settings are stored only when they are complete: with a base, a model, a key and a
/// protocol, and with an effort that the page offers.
pub proof fn law_stored_settings_are_complete(x: AppView, key: KeyEvent, presets: Seq<PresetView>)
    requires
        x.key(key, presets).1.contains(ActionView::SaveConfig),
    ensures
        ({
            let after = x.key(key, presets).0;
            &&& after.config is Some
            &&& after.config->0 == x.edited()
            &&& after.config->0.base_url.len() > 0
            &&& after.config->0.model.len() > 0
            &&& after.config->0.api_key.len() > 0
            &&& after.config->0.protocol == Some(x.cfg_protocol)
            &&& ({
                ||| after.config->0.reasoning_effort == "low"@
                ||| after.config->0.reasoning_effort == "high"@
                ||| after.config->0.reasoning_effort == "max"@
            })
            &&& after.cfg_fields[0] == after.config->0.base_url
        }),
{
    let actions = x.key(key, presets).1;
    let i = choose|i: int| 0 <= i < actions.len() && actions[i] == ActionView::SaveConfig;
    assert(actions[i] == ActionView::SaveConfig);
}

/// The settings that are in force are the ones that the page shows when it is opened.
pub proof fn law_settings_are_shown(x: AppView)
    requires
        x.config is Some,
    ensures
        x.config_entered().cfg_fields == seq![
            x.config->0.base_url,
            x.config->0.model,
            x.config->0.api_key,
        ],
        x.config_entered().cfg_protocol == x.config->0.spoken(),
        x.config_entered().cfg_preset_open == x.cfg_preset_open,
{
}

/// Selecting one category, or none, at a place changes the count by that one.
proof fn lemma_selected_count_update(
    categories: Seq<CategoryView>,
    at: int,
    category: CategoryView,
)
    requires
        0 <= at < categories.len(),
    ensures
        crate::input::selected_count(categories.update(at, category)) + (
        if categories[at].selected {
            1nat
        } else {
            0nat
        }) == crate::input::selected_count(categories) + (if category.selected {
            1nat
        } else {
            0nat
        }),
    decreases categories.len(),
{
    let changed = categories.update(at, category);
    if at == categories.len() - 1 {
        assert(changed.drop_last() =~= categories.drop_last());
    } else {
        assert(changed.drop_last() =~= categories.drop_last().update(at, category));
        assert(changed.last() == categories.last());
        lemma_selected_count_update(categories.drop_last(), at, category);
    }
}

/// On the captcha page no key selects more than three categories, and none changes their
/// numbers, names or order. Space on the categories selects the one under the cursor where it
/// is not selected and fewer than three are, and else takes it out; it leaves the others. Every
/// other key leaves the selection.
pub proof fn law_three_categories_at_most(x: AppView, captcha: CaptchaView, key: KeyEvent)
    requires
        x.phase == PhaseView::Captcha(captcha),
        crate::input::selected_count(captcha.categories) <= 3,
    ensures
        x.captcha_key(captcha, key).0.phase matches PhaseView::Captcha(after) ==> {
            let now = after.categories;
            let before = captcha.categories;
            let selects = key.code == KeyCode::Char(' ') && captcha.focus is Categories;
            &&& crate::input::selected_count(now) <= 3
            &&& now.len() == before.len()
            &&& forall|i: int|
                0 <= i < before.len() ==> (#[trigger] now[i]).id == before[i].id && now[i].name
                    == before[i].name
            &&& forall|i: int|
                0 <= i < before.len() && i != captcha.cat_focus ==> #[trigger] now[i] == before[i]
            &&& selects && captcha.cat_focus < before.len() ==> now[captcha.cat_focus as int].selected
                == (!before[captcha.cat_focus as int].selected && crate::input::selected_count(
                before,
            ) < 3)
            &&& !selects ==> now == before
        },
{
    if captcha.cat_focus < captcha.categories.len() {
        let at = captcha.cat_focus as int;
        let category = captcha.categories[at];
        let selected = !category.selected && crate::input::selected_count(captcha.categories) < 3;
        lemma_selected_count_update(
            captcha.categories,
            at,
            CategoryView { selected, ..category },
        );
    }
}

proof fn lemma_names(categories: Seq<CategoryView>)
    ensures
        crate::input::selected_names(categories).len() == crate::input::selected_count(categories),
        crate::input::selected_ids(categories).len() == crate::input::selected_count(categories),
    decreases categories.len(),
{
    if categories.len() > 0 {
        lemma_names(categories.drop_last());
    }
}

/// A captcha is submitted only with some input and one to three categories, which are then
/// the selected ones.
pub proof fn law_submitted_captcha_is_complete(x: AppView, captcha: CaptchaView)
    requires
        crate::input::selected_count(captcha.categories) <= 3,
        x.submitted(captcha).1.len() > 0,
    ensures
        captcha.input.len() > 0,
        1 <= x.submitted(captcha).0.selected_categories.len() <= 3,
        x.submitted(captcha).0.selected_categories == crate::input::selected_names(
            captcha.categories,
        ),
        x.submitted(captcha).0.phase == PhaseView::FetchingQuestion,
{
    lemma_names(captcha.categories);
}

proof fn lemma_encode_concat(a: Seq<char>, b: Seq<char>)
    ensures
        text::bytes_of(a + b) == text::bytes_of(a) + text::bytes_of(b),
    decreases a.len(),
{
    if a.len() == 0 {
        assert(a + b =~= b);
    } else {
        assert((a + b).drop_first() =~= a.drop_first() + b);
        lemma_encode_concat(a.drop_first(), b);
    }
}

proof fn lemma_boundary_between(a: Seq<char>, b: Seq<char>)
    ensures
        text::is_boundary(a + b, text::bytes_of(a).len() as int),
    decreases a.len(),
{
    broadcast use vstd::utf8::encode_utf8_valid_utf8;

    lemma_encode_concat(a, b);
    let bytes = text::bytes_of(a + b);
    if a.len() > 0 {
        let rest = (a + b).drop_first();
        assert(rest =~= a.drop_first() + b);
        lemma_boundary_between(a.drop_first(), b);
        vstd::utf8::encode_utf8_first_scalar(a + b);
        assert(vstd::utf8::pop_first_scalar(bytes) =~= text::bytes_of(rest));
        lemma_encode_concat(a.drop_first(), b);
    }
}

/// Putting a character into a text and taking it out again leaves the text as it was.
proof fn lemma_insert_remove(s: Seq<char>, at: int, c: char)
    requires
        text::is_boundary(s, at),
    ensures
        text::is_boundary(text::with_char_at(s, at, c), at),
        at < text::bytes_of(text::with_char_at(s, at, c)).len(),
        text::without_char_at(text::with_char_at(s, at, c), at) == s,
{
    broadcast use {
        vstd::utf8::encode_utf8_decode_utf8,
        vstd::utf8::encode_utf8_valid_utf8,
        vstd::utf8::decode_utf8_split,
        vstd::utf8::valid_utf8_split,
        vstd::utf8::decode_utf8_encode_utf8,
    };

    let bytes = text::bytes_of(s);
    let head = text::before_byte(s, at);
    let tail = text::from_byte(s, at);
    assert(text::bytes_of(head) == bytes.subrange(0, at));
    assert(text::bytes_of(tail) == bytes.subrange(at, bytes.len() as int));
    assert(s == head + tail);
    let more = seq![c] + tail;
    let t = text::with_char_at(s, at, c);
    assert(t =~= head + more);
    lemma_encode_concat(head, more);
    lemma_encode_concat(seq![c], tail);
    lemma_boundary_between(head, more);
    assert(text::bytes_of(seq![c]).len() > 0) by {
        reveal_with_fuel(vstd::utf8::encode_utf8, 2);
        assert(seq![c].drop_first() =~= seq![]);
    }
    let all = text::bytes_of(t);
    assert(all.subrange(0, at) =~= text::bytes_of(head));
    assert(all.subrange(at, all.len() as int) =~= text::bytes_of(more));
    assert(text::before_byte(t, at) == head);
    assert(text::from_byte(t, at) == more);
    assert(more.skip(1) =~= tail);
}

/// A character that is typed into a field can be taken back, and then all is as it was.
pub proof fn law_typing_is_taken_back(x: AppView, c: char)
    requires
        x.wf(),
        x.on_rows(),
        crate::input::field_of(x.cfg_focus) is Some,
        x.accepts(KeyCode::Char(c)),
    ensures
        x.typed(c).accepts(KeyCode::Backspace),
        x.typed(c).backspaced() == x,
{
    let field = crate::input::field_of(x.cfg_focus)->0;
    let at = x.cfg_cursors[field];
    lemma_insert_remove(x.cfg_fields[field], at as int, c);
    let back = x.typed(c).backspaced();
    assert(back.cfg_fields =~= x.cfg_fields);
    assert(back.cfg_cursors =~= x.cfg_cursors);
}

/// In a text of ASCII characters bytes and characters are the same: at every place up to the
/// end a character can be put in, and at every place before it one can be taken out.
pub proof fn law_ascii_is_edited_by_characters(s: Seq<char>, at: int, c: char)
    requires
        vstd::utf8::is_ascii_chars(s),
        0 <= at <= s.len(),
    ensures
        text::is_boundary(s, at),
        text::with_char_at(s, at, c) == s.insert(at, c),
        at < s.len() ==> at < text::bytes_of(s).len() && text::without_char_at(s, at) == s.remove(
            at,
        ),
{
    broadcast use {vstd::utf8::encode_utf8_decode_utf8, vstd::utf8::encode_utf8_valid_utf8};

    let head = s.take(at);
    let tail = s.skip(at);
    assert(s =~= head + tail);
    assert forall|i: int| 0 <= i < head.len() implies '\0' <= #[trigger] head[i] <= '\u{7f}' by {
        assert(head[i] == s[i]);
    }
    vstd::utf8::is_ascii_chars_encode_utf8(s);
    vstd::utf8::is_ascii_chars_encode_utf8(head);
    lemma_encode_concat(head, tail);
    lemma_boundary_between(head, tail);
    let bytes = text::bytes_of(s);
    assert(bytes.subrange(0, at) =~= text::bytes_of(head));
    assert(bytes.subrange(at, bytes.len() as int) =~= text::bytes_of(tail));
    assert(text::before_byte(s, at) == head);
    assert(text::from_byte(s, at) == tail);
    assert(head.push(c) + tail =~= s.insert(at, c));
    if at < s.len() {
        assert(head + tail.skip(1) =~= s.remove(at));
    }
}

/// Whether a field holds ASCII characters only, with the cursor in it.
pub open spec fn plain_field(x: AppView, field: int) -> bool {
    vstd::utf8::is_ascii_chars(x.cfg_fields[field]) && x.cfg_cursors[field]
        <= x.cfg_fields[field].len() && x.cfg_fields[field].len() < usize::MAX
}

proof fn lemma_ascii_grows(s: Seq<char>, at: int, c: char)
    requires
        vstd::utf8::is_ascii_chars(s),
        0 <= at <= s.len(),
        c <= '\u{7f}',
    ensures
        vstd::utf8::is_ascii_chars(s.insert(at, c)),
{
    let grown = s.insert(at, c);
    assert forall|i: int| 0 <= i < grown.len() implies '\0' <= #[trigger] grown[i]
        <= '\u{7f}' by {
        if i < at {
            assert(grown[i] == s[i]);
        } else if i > at {
            assert(grown[i] == s[i - 1]);
        }
    }
}

proof fn lemma_ascii_shrinks(s: Seq<char>, at: int)
    requires
        vstd::utf8::is_ascii_chars(s),
        0 <= at < s.len(),
    ensures
        vstd::utf8::is_ascii_chars(s.remove(at)),
{
    let left = s.remove(at);
    assert forall|i: int| 0 <= i < left.len() implies '\0' <= #[trigger] left[i] <= '\u{7f}' by {
        if i < at {
            assert(left[i] == s[i]);
        } else {
            assert(left[i] == s[i + 1]);
        }
    }
}

/// Whether a key leaves a field of ASCII characters as one, with the cursor in it.
pub open spec fn stays_plain(x: AppView, code: KeyCode) -> bool {
    let field = crate::input::field_of(x.cfg_focus)->0;
    let after = x.row_key(code).0;
    &&& vstd::utf8::is_ascii_chars(after.cfg_fields[field])
    &&& after.cfg_cursors[field] <= after.cfg_fields[field].len()
}

proof fn lemma_plain_typed(x: AppView, c: char)
    requires
        x.wf(),
        crate::input::field_of(x.cfg_focus) is Some,
        plain_field(x, crate::input::field_of(x.cfg_focus)->0),
        c <= '\u{7f}',
    ensures
        x.accepts(KeyCode::Char(c)),
        stays_plain(x, KeyCode::Char(c)),
{
    let field = crate::input::field_of(x.cfg_focus)->0;
    let content = x.cfg_fields[field];
    let at = x.cfg_cursors[field] as int;
    law_ascii_is_edited_by_characters(content, at, c);
    lemma_ascii_grows(content, at, c);
    assert(x.row_key(KeyCode::Char(c)).0 == x.typed(c));
}

proof fn lemma_plain_backspaced(x: AppView)
    requires
        x.wf(),
        crate::input::field_of(x.cfg_focus) is Some,
        plain_field(x, crate::input::field_of(x.cfg_focus)->0),
    ensures
        x.accepts(KeyCode::Backspace),
        stays_plain(x, KeyCode::Backspace),
{
    let field = crate::input::field_of(x.cfg_focus)->0;
    let content = x.cfg_fields[field];
    let at = x.cfg_cursors[field] as int;
    if at > 0 {
        law_ascii_is_edited_by_characters(content, at - 1, ' ');
        lemma_ascii_shrinks(content, at - 1);
    }
}

/// As long as ASCII characters are typed, every key finds the cursor at a character, and
/// leaves it in the field.
pub proof fn law_ascii_takes_every_key(x: AppView, code: KeyCode)
    requires
        x.wf(),
        crate::input::field_of(x.cfg_focus) is Some,
        plain_field(x, crate::input::field_of(x.cfg_focus)->0),
        code matches KeyCode::Char(c) ==> c <= '\u{7f}',
    ensures
        x.accepts(code),
        stays_plain(x, code),
{
    match code {
        KeyCode::Backspace => {
            lemma_plain_backspaced(x);
        },
        KeyCode::Char(c) => {
            lemma_plain_typed(x, c);
        },
        _ => {
            vstd::utf8::is_ascii_chars_encode_utf8(
                x.cfg_fields[crate::input::field_of(x.cfg_focus)->0],
            );
        },
    }
}

/// On the settings page an ASCII character that is typed into a field of such characters
/// stands at the cursor, which goes on by one. Backspace then makes all as it was, and the
/// other fields never change.
pub proof fn law_typed_character_stands_at_the_cursor(
    x: AppView,
    c: char,
    presets: Seq<PresetView>,
)
    requires
        x.wf(),
        x.on_rows(),
        crate::input::field_of(x.cfg_focus) is Some,
        plain_field(x, crate::input::field_of(x.cfg_focus)->0),
        c <= '\u{7f}',
    ensures
        ({
            let field = crate::input::field_of(x.cfg_focus)->0;
            let at = x.cfg_cursors[field];
            let typed = x.config_key(KeyCode::Char(c), presets).0;
            &&& x.accepts(KeyCode::Char(c))
            &&& typed.cfg_fields == x.cfg_fields.update(
                field,
                x.cfg_fields[field].insert(at as int, c),
            )
            &&& typed.cfg_cursors == x.cfg_cursors.update(field, (at + 1) as usize)
            &&& typed.accepts(KeyCode::Backspace)
            &&& typed.config_key(KeyCode::Backspace, presets).0 == x
        }),
{
    let field = crate::input::field_of(x.cfg_focus)->0;
    law_ascii_is_edited_by_characters(
        x.cfg_fields[field],
        x.cfg_cursors[field] as int,
        c,
    );
    lemma_plain_typed(x, c);
    law_typing_is_taken_back(x, c);
}

} // verus!
