use chat_input::app::{App, MentionCompletionStyle, SelectChannel};
use chat_input::command::{Command, MoveAmountText, MoveDirection, WindowMode};
use chat_input::input::Input;
use chat_input::keys::{KeyBindings, KeyCode, KeyCombination, KeyEvent, KeyEventKind, SHIFT};
use chat_input::lists::{ChannelList, MessageLists};

const CONTROL: u8 = 2;

fn empty_app() -> App {
    App {
        user_id: 1,
        input: Input::new(),
        select_channel: SelectChannel {
            is_shown: false,
            input: Input::new(),
            selected_channel_id: None,
        },
        channels: ChannelList { items: Vec::new(), selected: None },
        messages: MessageLists::new(),
        editing: None,
        mention_completion: MentionCompletionStyle::Off,
        mention_popup: None,
        mention_cycle: None,
        mode_keybindings: KeyBindings::new(),
        is_multiline_input: false,
        is_help: false,
        help_scroll: (0, 0),
        should_quit: false,
        should_clear: false,
        open_editor_requested: false,
    }
}

fn press(code: KeyCode, modifiers: u8) -> KeyEvent {
    KeyEvent { code, modifiers, kind: KeyEventKind::Press }
}

fn single(first: KeyCode, modifiers: u8) -> KeyCombination {
    KeyCombination { first, second: None, third: None, modifiers }
}

fn char_of(code: crossterm::event::KeyCode) -> Option<char> {
    match code {
        crossterm::event::KeyCode::Char(c) => Some(c),
        _ => None,
    }
}

fn combines_as_crokey_does(c: char, modifiers: u8) {
    let event = crossterm::event::KeyEvent::new(
        crossterm::event::KeyCode::Char(c),
        crossterm::event::KeyModifiers::from_bits_truncate(modifiers),
    );
    let expected = crokey::Combiner::default().transform(event).unwrap();
    let combined = press(KeyCode::Char(c), modifiers).combine().unwrap();
    assert_eq!(expected.modifiers.bits(), combined.modifiers);
    let code = *expected.codes.first();
    if code == crossterm::event::KeyCode::Enter {
        assert_eq!(combined.first, KeyCode::Enter);
    } else {
        assert_eq!(combined.first, KeyCode::Char(char_of(code).unwrap()));
    }
    assert_eq!(combined.second, None);
    assert_eq!(combined.third, None);
}

#[test]
fn characters_combine_as_crokey_combines_them() {
    for c in '\0'..='\u{2ff}' {
        for modifiers in 0..64 {
            combines_as_crokey_does(c, modifiers);
        }
    }
    for c in '\u{300}'..=char::MAX {
        combines_as_crokey_does(c, 0);
        combines_as_crokey_does(c, SHIFT);
    }
}

#[test]
fn other_keys_combine_as_crokey_combines_them() {
    let pairs = [
        (crossterm::event::KeyCode::Backspace, KeyCode::Backspace),
        (crossterm::event::KeyCode::Enter, KeyCode::Enter),
        (crossterm::event::KeyCode::Left, KeyCode::Left),
        (crossterm::event::KeyCode::Home, KeyCode::Home),
        (crossterm::event::KeyCode::PageUp, KeyCode::PageUp),
        (crossterm::event::KeyCode::Tab, KeyCode::Tab),
        (crossterm::event::KeyCode::BackTab, KeyCode::BackTab),
        (crossterm::event::KeyCode::Delete, KeyCode::Delete),
        (crossterm::event::KeyCode::F(5), KeyCode::F(5)),
        (crossterm::event::KeyCode::Null, KeyCode::Null),
        (crossterm::event::KeyCode::Esc, KeyCode::Esc),
        (crossterm::event::KeyCode::Menu, KeyCode::Menu),
    ];
    for (theirs, ours) in pairs {
        let event = crossterm::event::KeyEvent::new(
            theirs,
            crossterm::event::KeyModifiers::CONTROL,
        );
        let expected = crokey::Combiner::default().transform(event).unwrap();
        assert_eq!(*expected.codes.first(), theirs);
        assert_eq!(expected.modifiers.bits(), CONTROL);
        assert_eq!(press(ours, CONTROL).combine(), Some(single(ours, CONTROL)));
    }
}

#[test]
fn releases_and_repeats_do_not_combine() {
    for (kind, theirs) in [
        (KeyEventKind::Release, crossterm::event::KeyEventKind::Release),
        (KeyEventKind::Repeat, crossterm::event::KeyEventKind::Repeat),
    ] {
        let event = crossterm::event::KeyEvent::new_with_kind(
            crossterm::event::KeyCode::Char('a'),
            crossterm::event::KeyModifiers::empty(),
            theirs,
        );
        assert!(crokey::Combiner::default().transform(event).is_none());
        let ours = KeyEvent { code: KeyCode::Char('a'), modifiers: 0, kind };
        assert_eq!(ours.combine(), None);
        let mut app = empty_app();
        app.is_help = true;
        assert!(app.event_to_command(&ours).is_none());
    }
}

#[test]
fn shift_makes_letters_upper_case() {
    assert_eq!(
        press(KeyCode::Char('q'), SHIFT).combine(),
        Some(single(KeyCode::Char('Q'), SHIFT))
    );
    assert_eq!(press(KeyCode::Char('Q'), 0).combine(), Some(single(KeyCode::Char('Q'), SHIFT)));
    assert_eq!(press(KeyCode::Char('\r'), 0).combine(), Some(single(KeyCode::Enter, 0)));
}

#[test]
fn bindings_are_replaced_and_kept_apart_by_mode() {
    let mut bindings = KeyBindings::new();
    let keys = single(KeyCode::F(2), 0);
    assert!(bindings.get(WindowMode::Normal, keys).is_none());
    bindings.bind(WindowMode::Normal, keys, Command::Quit);
    bindings.bind(WindowMode::Help, keys, Command::Redraw);
    bindings.bind(WindowMode::Normal, keys, Command::NoOp);
    assert!(matches!(bindings.get(WindowMode::Normal, keys), Some(Command::NoOp)));
    assert!(matches!(bindings.get(WindowMode::Help, keys), Some(Command::Redraw)));
    assert!(bindings.get(WindowMode::Multiline, keys).is_none());
}

#[test]
fn modes_are_looked_up_in_order() {
    let mut app = empty_app();
    let keys = single(KeyCode::F(1), 0);
    let event = press(KeyCode::F(1), 0);
    app.mode_keybindings.bind(WindowMode::Normal, keys, Command::KillLine);
    app.mode_keybindings.bind(WindowMode::MessageSelected, keys, Command::EditMessage);
    app.mode_keybindings.bind(WindowMode::Multiline, keys, Command::KillWord);
    app.mode_keybindings.bind(WindowMode::ChannelModal, keys, Command::ToggleChannelModal);
    app.mode_keybindings.bind(WindowMode::Help, keys, Command::Help);

    // Nothing is typed: the keys for the selected message come first.
    assert!(matches!(app.event_to_command(&event), Some(Command::EditMessage)));
    app.input.put_char('x');
    assert!(matches!(app.event_to_command(&event), Some(Command::KillLine)));
    app.is_multiline_input = true;
    assert!(matches!(app.event_to_command(&event), Some(Command::KillWord)));
    app.select_channel.is_shown = true;
    assert!(matches!(app.event_to_command(&event), Some(Command::ToggleChannelModal)));
    app.is_help = true;
    assert!(matches!(app.event_to_command(&event), Some(Command::Help)));
    app.mode_keybindings.bind(WindowMode::Anywhere, keys, Command::Quit);
    assert!(matches!(app.event_to_command(&event), Some(Command::Quit)));
}

#[test]
fn several_lines_fall_back_to_the_normal_keys() {
    let mut app = empty_app();
    app.is_multiline_input = true;
    let keys = single(KeyCode::Left, 0);
    app.mode_keybindings.bind(
        WindowMode::Normal,
        keys,
        Command::MoveText(MoveDirection::Previous, MoveAmountText::Character),
    );
    assert!(matches!(
        app.event_to_command(&press(KeyCode::Left, 0)),
        Some(Command::MoveText(MoveDirection::Previous, MoveAmountText::Character))
    ));
}

#[test]
fn help_swallows_unbound_keys() {
    let mut app = empty_app();
    let event = press(KeyCode::Char('x'), 0);
    assert!(app.event_to_command(&event).is_none());
    app.is_help = true;
    assert!(matches!(app.event_to_command(&event), Some(Command::NoOp)));
}

#[test]
fn normal_keys_mean_nothing_in_the_channel_popup() {
    let mut app = empty_app();
    app.mode_keybindings.bind(WindowMode::Normal, single(KeyCode::F(3), 0), Command::Quit);
    app.select_channel.is_shown = true;
    assert!(app.event_to_command(&press(KeyCode::F(3), 0)).is_none());
}
