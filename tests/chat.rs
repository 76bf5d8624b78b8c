use chat_widget::view::{compose_block, render_message_owned};
use chat_widget::{
    BasePalette, ChatEvent, ChatMessage, ChatState, ChatTheme, ChatWidget, Color, ColorPair,
    HorizontalAlign, MessageAction, MessageObserver, TextMessage, Timestamp, SCROLLABLE_ID,
};
use std::cell::Cell;
use std::collections::HashSet;
use std::rc::Rc;

struct Counter {
    calls: Rc<Cell<u32>>,
}

impl MessageObserver<TextMessage> for Counter {
    fn on_message(&self, _message: &TextMessage) {
        self.calls.set(self.calls.get() + 1);
    }
}

fn counter() -> (Counter, Rc<Cell<u32>>) {
    let calls = Rc::new(Cell::new(0));
    (Counter { calls: calls.clone() }, calls)
}

fn color(v: u8) -> Color {
    Color { r: v, g: v, b: v, a: 255 }
}

fn palette() -> BasePalette {
    BasePalette {
        base: ColorPair { color: color(1), text: color(2) },
        weak: ColorPair { color: color(3), text: color(4) },
        strong: ColorPair { color: color(5), text: color(6) },
    }
}

fn msg(content: &str, author: &str, secs: i64, own: bool) -> TextMessage {
    TextMessage::new(content.to_string(), author.to_string(), Timestamp::new(secs, 0), own)
}

fn store() -> ChatState<TextMessage, Counter> {
    ChatState::new()
}

#[test]
fn ids_are_distinct_over_many_insertions() {
    let mut state = store();
    let batch: Vec<TextMessage> = (0..10_000).map(|i| msg("m", "a", i, false)).collect();
    let pairs = state.add_messages(batch);
    assert_eq!(pairs.len(), 10_000);
    let ids: HashSet<u32> = pairs.iter().map(|p| p.0).collect();
    assert_eq!(ids.len(), 10_000);
    assert!(!ids.contains(&0));
    for (id, m) in &pairs {
        assert_eq!(m.id(), *id);
    }
    assert_eq!(state.get_messages_ids().len(), 10_000);
}

#[test]
fn add_messages_keeps_input_order() {
    let mut state = store();
    let pairs = state.add_messages(vec![msg("x", "a", 5, false), msg("y", "b", 1, true)]);
    assert_eq!(pairs.len(), 2);
    assert_eq!(pairs[0].1.content(), "x");
    assert_eq!(pairs[1].1.content(), "y");
    assert_ne!(pairs[0].0, pairs[1].0);
}

#[test]
fn view_orders_by_timestamp() {
    let mut state = store();
    let t = 1_700_000_000;
    let (a, _) = state.add_message(msg("third", "a", t + 3, false));
    let (b, _) = state.add_message(msg("first", "a", t + 1, false));
    let (c, _) = state.add_message(msg("second", "a", t + 2, false));
    let view = ChatWidget::new(&palette(), &state).view();
    let ids: Vec<u32> = view.blocks.iter().map(|b| b.message_id).collect();
    assert_eq!(ids, vec![b, c, a]);
    let contents: Vec<&str> = view.blocks.iter().map(|b| b.content.as_str()).collect();
    assert_eq!(contents, vec!["first", "second", "third"]);
}

#[test]
fn view_orders_by_nanoseconds_within_a_second() {
    let mut state = store();
    state.add_message(TextMessage::new("late".to_string(), "a".to_string(), Timestamp::new(10, 900), false));
    state.add_message(TextMessage::new("early".to_string(), "a".to_string(), Timestamp::new(10, 5), false));
    let view = ChatWidget::new(&palette(), &state).view();
    assert_eq!(view.blocks[0].content, "early");
    assert_eq!(view.blocks[1].content, "late");
}

#[test]
fn same_timestamp_orders_by_identifier() {
    let mut state = store();
    state.add_message(msg("one", "a", 100, false));
    state.add_message(msg("two", "a", 100, true));
    let view = ChatWidget::new(&palette(), &state).view();
    assert_eq!(view.blocks.len(), 2);
    assert!(view.blocks[0].message_id < view.blocks[1].message_id);
}

#[test]
fn own_and_other_styles() {
    let mut state = store();
    let (mine, _) = state.add_message(msg("hi", "me", 50, true));
    let (theirs, _) = state.add_message(msg("hello", "you", 50, false));
    let view = ChatWidget::new(&palette(), &state).view();
    for block in &view.blocks {
        if block.message_id == mine {
            assert_eq!(block.align, HorizontalAlign::Right);
            assert_eq!(block.style.background, color(5));
            assert_eq!(block.style.text_color, color(6));
        } else {
            assert_eq!(block.message_id, theirs);
            assert_eq!(block.align, HorizontalAlign::Left);
            assert_eq!(block.style.background, color(3));
            assert_eq!(block.style.text_color, color(4));
        }
    }
    let aligns: HashSet<bool> = view.blocks.iter().map(|b| b.align == HorizontalAlign::Right).collect();
    assert_eq!(aligns.len(), 2);
}

#[test]
fn action_wiring() {
    let mut state = store();
    let (m1, _) = state.add_message(msg("m1", "a", 0, false));
    let action = MessageAction { id: "a1".to_string(), label: "Reply".to_string(), icon: None };
    let view = ChatWidget::new(&palette(), &state).with_actions(vec![action]).view();
    assert_eq!(view.blocks.len(), 1);
    let buttons = &view.blocks[0].actions;
    assert_eq!(buttons.len(), 1);
    assert_eq!(buttons[0].label, "Reply");
    assert_eq!(
        buttons[0].on_press,
        ChatEvent::ActionClicked { message_id: m1.to_string(), action_id: "a1".to_string() }
    );
}

#[test]
fn no_actions_no_buttons() {
    let mut state = store();
    state.add_message(msg("m", "a", 0, false));
    let view = ChatWidget::new(&palette(), &state).view();
    assert!(view.blocks[0].actions.is_empty());
}

#[test]
fn observers_fan_out() {
    let mut state = store();
    let (o1, c1) = counter();
    let (o2, c2) = counter();
    let s1 = state.subscribe_on_message_action(o1);
    let s2 = state.subscribe_on_message_action(o2);
    assert_ne!(s1, s2);
    state.add_message(msg("m", "a", 0, false));
    assert_eq!(c1.get(), 1);
    assert_eq!(c2.get(), 1);
}

#[test]
fn unsubscribed_observer_is_not_told() {
    let mut state = store();
    let (o1, c1) = counter();
    let (o2, c2) = counter();
    let s1 = state.subscribe_on_message_action(o1);
    state.subscribe_on_message_action(o2);
    state.unsubscribe_on_message_action(&s1);
    state.unsubscribe_on_message_action(&s1);
    state.add_message(msg("m", "a", 0, false));
    assert_eq!(c1.get(), 0);
    assert_eq!(c2.get(), 1);
}

#[test]
fn clear_is_idempotent_and_keeps_observers() {
    let mut state = store();
    state.clear_messages();
    assert!(state.get_messages_ids().is_empty());
    let (o, c) = counter();
    state.subscribe_on_message_action(o);
    state.add_message(msg("m", "a", 0, false));
    state.clear_messages();
    assert!(state.get_messages_ids().is_empty());
    assert!(state.get_all_message_pairs().is_empty());
    state.add_message(msg("n", "a", 0, false));
    assert_eq!(c.get(), 2);
}

#[test]
fn add_then_get_round_trip() {
    let mut state = store();
    let sent = TextMessage {
        id: 77,
        content: "hello".to_string(),
        author_id: "alice".to_string(),
        timestamp: Timestamp::new(123, 456),
        is_own: true,
    };
    let (id, _) = state.add_message(sent.clone());
    assert_ne!(id, 0);
    let got = state.get_message(&id).unwrap();
    assert_eq!(got.id, id);
    assert_eq!(got.content, sent.content);
    assert_eq!(got.author_id, sent.author_id);
    assert_eq!(got.timestamp, sent.timestamp);
    assert_eq!(got.is_own, sent.is_own);
}

#[test]
fn lookups_skip_missing_ids() {
    let mut state = store();
    let (a, _) = state.add_message(msg("a", "x", 0, false));
    let (b, _) = state.add_message(msg("b", "x", 0, false));
    let missing = if a != 1 && b != 1 { 1 } else if a != 2 && b != 2 { 2 } else { 3 };
    assert!(state.get_message(&missing).is_none());
    let got = state.get_messages(vec![&b, &missing, &a]);
    let contents: Vec<&str> = got.iter().map(|m| m.content()).collect();
    assert_eq!(contents, vec!["b", "a"]);
    let pairs = state.get_message_pairs(&vec![missing, a]);
    assert_eq!(pairs.len(), 1);
    assert_eq!(pairs[0].0, a);
    assert_eq!(state.get_all_message_pairs().len(), 2);
}

#[test]
fn get_message_mut_changes_in_place() {
    let mut state = store();
    let (a, _) = state.add_message(msg("a", "x", 0, false));
    state.get_message_mut(&a).unwrap().content = "changed".to_string();
    assert_eq!(state.get_message(&a).unwrap().content, "changed");
    let other = a.wrapping_add(1);
    assert!(state.get_message_mut(&other).is_none());
}

#[test]
fn automatic_scroll_flag() {
    let mut state = store();
    assert!(state.automatic_scroll());
    state.set_automatic_scroll(false);
    assert!(!state.automatic_scroll());
}

#[test]
fn default_theme_values() {
    let theme = ChatTheme::get_default(&palette());
    let own = theme.own_message_style();
    let other = theme.other_message_style();
    assert_eq!(own.background(), color(5));
    assert_eq!(own.text_color(), color(6));
    assert_eq!(own.time_stamp_text_color(), color(6));
    assert_eq!(other.background(), color(3));
    assert_eq!(other.time_stamp_text_color(), color(4));
    for s in [own, other] {
        assert_eq!(s.border_radius(), 8);
        assert_eq!(s.padding(), 10);
        assert_eq!(s.author_text_size(), 14);
        assert_eq!(s.content_text_size(), 16);
        assert_eq!(s.timestamp_text_size(), 10);
        assert_eq!(s.time_stamp_format(), "%H:%M:%S");
    }
    assert_eq!(theme.background_color(), color(1));
    assert_eq!(theme.spacing(), 10);
    assert_eq!(theme.padding(), 10);
}

#[test]
fn view_carries_container_settings() {
    let state = store();
    let view = ChatWidget::new(&palette(), &state).view();
    assert!(view.blocks.is_empty());
    assert_eq!(view.spacing, 10);
    assert_eq!(view.padding, 10);
    assert_eq!(view.background, color(1));
    assert_eq!(view.scroll_id, SCROLLABLE_ID);
}

#[test]
fn custom_theme_replaces_default() {
    let mut state = store();
    state.add_message(msg("m", "a", 0, true));
    let mut theme = ChatTheme::get_default(&palette());
    theme.spacing = 3;
    theme.own_message_style.background = color(9);
    let view = ChatWidget::new(&palette(), &state).with_custom_theme(theme).view();
    assert_eq!(view.spacing, 3);
    assert_eq!(view.blocks[0].style.background, color(9));
}

#[test]
fn timestamp_is_formatted_in_utc() {
    let theme = ChatTheme::get_default(&palette());
    let m = msg("c", "a", 12 * 3600 + 34 * 60 + 56, false);
    let block = render_message_owned(42, &m, &theme, &vec![]);
    assert_eq!(block.timestamp_text, "12:34:56");
    assert_eq!(block.message_id, 42);
    assert_eq!(block.author, "a");
    assert_eq!(block.content, "c");
    let early = msg("c", "a", 86_400 + 5, false);
    assert_eq!(render_message_owned(1, &early, &theme, &vec![]).timestamp_text, "00:00:05");
}

#[test]
fn unformattable_timestamp_is_empty() {
    let theme = ChatTheme::get_default(&palette());
    let m = msg("c", "a", i64::MAX, false);
    assert_eq!(render_message_owned(1, &m, &theme, &vec![]).timestamp_text, "");
}

#[test]
fn compose_block_uses_given_stamp() {
    let theme = ChatTheme::get_default(&palette());
    let m = msg("c", "a", 0, true);
    let actions = vec![
        MessageAction { id: "x".to_string(), label: "X".to_string(), icon: None },
        MessageAction { id: "y".to_string(), label: "Y".to_string(), icon: Some("i".to_string()) },
    ];
    let block = compose_block(1234, &m, &theme, &actions, "stamp".to_string());
    assert_eq!(block.timestamp_text, "stamp");
    assert_eq!(block.align, HorizontalAlign::Right);
    assert_eq!(block.actions.len(), 2);
    assert_eq!(
        block.actions[1].on_press,
        ChatEvent::ActionClicked { message_id: "1234".to_string(), action_id: "y".to_string() }
    );
}
