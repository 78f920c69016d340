use chat_input::actions::after_open;
use chat_input::app::{App, MentionCompletionStyle, MentionPopup, SelectChannel};
use chat_input::chat::{Channel, ChannelId, Context, Member, Message, MessageId};
use chat_input::command::{
    Command, DirectionVertical, MoveAmountText, MoveAmountVisual, MoveDirection, Widget, WindowMode,
};
use chat_input::dispatch::AppError;
use chat_input::effect::{Edit, Effect, OpenTarget};
use chat_input::input::{Cursor, Input};
use chat_input::keys::{KeyBindings, KeyCode, KeyCombination, KeyEvent, KeyEventKind};
use chat_input::lists::{ChannelList, MessageList, MessageLists};

const ME: u128 = 1;
const NOTES: ChannelId = ChannelId::User(ME);
const PEER: ChannelId = ChannelId::User(2);
const GROUP: ChannelId = ChannelId::Group { high: 7, low: 8 };

fn app() -> App {
    let mut messages = MessageLists::new();
    messages.insert(GROUP, MessageList { items: vec![100, 200, 300], selected: None });
    messages.insert(NOTES, MessageList { items: vec![50], selected: Some(0) });
    App {
        user_id: ME,
        input: Input::new(),
        select_channel: SelectChannel {
            is_shown: false,
            input: Input::new(),
            selected_channel_id: None,
        },
        channels: ChannelList { items: vec![GROUP, PEER, NOTES], selected: Some(0) },
        messages,
        editing: None,
        mention_completion: MentionCompletionStyle::Menu,
        mention_popup: None,
        mention_cycle: None,
        mode_keybindings: KeyBindings::new(),
        is_multiline_input: false,
        is_help: false,
        help_scroll: (0, 0),
        should_quit: false,
        should_clear: false,
        open_editor_requested: false,
    }
}

fn select_message(app: &mut App, from_newest: usize) {
    app.messages.insert(
        GROUP,
        MessageList { items: vec![100, 200, 300], selected: Some(from_newest) },
    );
}

fn typed(text: &str) -> Input {
    let mut input = Input::new();
    for c in text.chars() {
        input.put_char(c);
    }
    input
}

fn group(names: &[&str]) -> Option<Channel> {
    let mut members = Vec::new();
    for (i, name) in names.iter().enumerate() {
        members.push(Member { id: i as u128 + 10, name: name.to_string() });
    }
    Some(Channel { id: GROUP, group_members: Some(members), peer_name: String::new() })
}

fn message(from_id: u128, text: Option<&str>, reactions: &[(u128, &str)]) -> Message {
    Message {
        from_id,
        message: text.map(|text| text.to_string()),
        arrived_at: 200,
        deleted: false,
        reactions: reactions.iter().map(|(id, emoji)| (*id, emoji.to_string())).collect(),
    }
}

fn nothing() -> Context {
    Context { channel: None, message: None, last_edit: None, emoji: None }
}

fn known(channel: Option<Channel>, message: Option<Message>) -> Context {
    Context { channel, message, last_edit: None, emoji: None }
}

fn press(code: KeyCode) -> KeyEvent {
    KeyEvent { code, modifiers: 0, kind: KeyEventKind::Press }
}

fn bind(app: &mut App, code: KeyCode, command: Command) {
    let keys = KeyCombination { first: code, second: None, third: None, modifiers: 0 };
    app.mode_keybindings.bind(WindowMode::Anywhere, keys, command);
}

fn hit(app: &mut App, code: KeyCode, context: &Context) -> Vec<Effect> {
    app.try_on_key(press(code), context).unwrap().unwrap()
}

#[test]
fn commands_are_forwarded() {
    let cases = [
        (Command::Help, Effect::ToggleHelp),
        (
            Command::MoveText(MoveDirection::Previous, MoveAmountText::Word),
            Effect::Edit(Edit::MoveBackWord),
        ),
        (
            Command::MoveText(MoveDirection::Previous, MoveAmountText::Character),
            Effect::Edit(Edit::MoveLeft),
        ),
        (
            Command::MoveText(MoveDirection::Previous, MoveAmountText::Line),
            Effect::Edit(Edit::MoveLineUp),
        ),
        (
            Command::MoveText(MoveDirection::Next, MoveAmountText::Word),
            Effect::Edit(Edit::MoveForwardWord),
        ),
        (
            Command::MoveText(MoveDirection::Next, MoveAmountText::Line),
            Effect::Edit(Edit::MoveLineDown),
        ),
        (
            Command::SelectMessage(MoveDirection::Previous, MoveAmountVisual::Entry),
            Effect::SelectPreviousMessage,
        ),
        (
            Command::SelectMessage(MoveDirection::Next, MoveAmountVisual::Entry),
            Effect::SelectNextMessage,
        ),
        (Command::KillBackwardLine, Effect::Edit(Edit::DeleteLine)),
        (Command::KillWord, Effect::Edit(Edit::DeleteWord)),
        (Command::KillLine, Effect::Edit(Edit::DeleteSuffix)),
        (Command::KillWholeLine, Effect::Edit(Edit::DeleteLine)),
        (Command::BeginningOfLine, Effect::Edit(Edit::MoveHome)),
        (Command::EndOfLine, Effect::Edit(Edit::MoveEnd)),
        (Command::SelectChannel(MoveDirection::Previous), Effect::SelectPreviousChannel),
        (Command::SelectChannel(MoveDirection::Next), Effect::SelectNextChannel),
        (Command::SelectChannelModal(MoveDirection::Previous), Effect::SelectPreviousInModal),
        (Command::SelectChannelModal(MoveDirection::Next), Effect::SelectNextInModal),
        (Command::DeleteCharacter(MoveDirection::Next), Effect::Edit(Edit::DeleteCharacter)),
        (Command::ToggleMuteChannel, Effect::ToggleMuteChannel),
        (Command::ToggleChannelList, Effect::ToggleChannelList),
    ];
    for (command, expected) in cases {
        let mut app = app();
        let effects = app.on_command(command, &nothing());
        assert_eq!(effects.len(), 1);
        assert_eq!(format!("{:?}", effects[0]), format!("{:?}", expected));
    }
}

#[test]
fn commands_set_flags() {
    let mut app = app();
    assert!(app.on_command(Command::Quit, &nothing()).is_empty());
    assert!(app.on_command(Command::Redraw, &nothing()).is_empty());
    assert!(app.on_command(Command::OpenEditor, &nothing()).is_empty());
    assert!(app.on_command(Command::NoOp, &nothing()).is_empty());
    assert!(app.should_quit && app.should_clear && app.open_editor_requested);
}

#[test]
fn several_lines_are_switched_on_and_off() {
    let mut app = app();
    assert!(app.on_command(Command::ToggleMultiline, &nothing()).is_empty());
    assert!(app.is_multiline_input);
    assert!(app.on_command(Command::ToggleMultiline, &nothing()).is_empty());
    assert!(!app.is_multiline_input);
}

#[test]
fn the_channel_popup_is_filled_when_it_opens() {
    let mut app = app();
    let effects = app.on_command(Command::ToggleChannelModal, &nothing());
    assert!(matches!(effects[..], [Effect::ResetChannelModal]));
    assert!(app.select_channel.is_shown);
    assert!(app.on_command(Command::ToggleChannelModal, &nothing()).is_empty());
    assert!(!app.select_channel.is_shown);
}

#[test]
fn the_help_is_scrolled() {
    let up = Command::Scroll(Widget::Help, DirectionVertical::Up, MoveAmountVisual::Entry);
    let down = Command::Scroll(Widget::Help, DirectionVertical::Down, MoveAmountVisual::Entry);
    let mut app = app();
    app.help_scroll = (0, 3);
    app.on_command(up.clone(), &nothing());
    assert_eq!(app.help_scroll, (0, 3));
    app.on_command(down.clone(), &nothing());
    assert_eq!(app.help_scroll, (1, 3));
    app.on_command(up, &nothing());
    assert_eq!(app.help_scroll, (0, 3));
    bind(&mut app, KeyCode::Down, down);
    app.help_scroll = (u16::MAX, 0);
    assert!(app.try_on_key(press(KeyCode::Down), &nothing()).is_none());
    assert_eq!(app.help_scroll, (u16::MAX, 0));
}

#[test]
fn commands_edit_the_active_box() {
    let mut app = app();
    app.input = typed("ab");
    app.select_channel.input = typed("xy");
    app.on_command(Command::DeleteCharacter(MoveDirection::Previous), &nothing());
    assert_eq!(app.input.data, "a");
    app.select_channel.is_shown = true;
    app.on_command(Command::DeleteCharacter(MoveDirection::Previous), &nothing());
    assert_eq!(app.select_channel.input.data, "x");
    assert_eq!(app.input.data, "a");
    app.select_channel.is_shown = false;
    app.input.cursor = Cursor { idx: 0, col: 0 };
    app.on_command(
        Command::MoveText(MoveDirection::Next, MoveAmountText::Character),
        &nothing(),
    );
    assert_eq!(app.input.cursor, Cursor { idx: 1, col: 1 });
}

#[test]
fn the_selected_message_is_copied() {
    let mut app = app();
    let context = known(group(&[]), Some(message(2, Some("hello"), &[])));
    assert!(app.on_command(Command::CopyMessage, &context).is_empty());
    select_message(&mut app, 1);
    let effects = app.on_command(Command::CopyMessage, &context);
    assert!(matches!(&effects[..], [Effect::SetClipboard(text)] if text == "hello"));
    assert_eq!(app.copy_selection(&context.message), Some("hello".to_string()));
    let context = known(group(&[]), Some(message(2, None, &[])));
    assert!(app.on_command(Command::CopyMessage, &context).is_empty());
}

#[test]
fn the_selection_counts_from_the_newest_message() {
    let mut app = app();
    assert_eq!(app.selected_message_id(), None);
    select_message(&mut app, 0);
    assert_eq!(app.selected_message_id(), Some(MessageId::new(GROUP, 300)));
    select_message(&mut app, 2);
    assert_eq!(app.selected_message_id(), Some(MessageId::new(GROUP, 100)));
    select_message(&mut app, 3);
    assert_eq!(app.selected_message_id(), None);
    app.channels.selected = Some(1);
    assert_eq!(app.selected_message_id(), None);
    app.channels.selected = None;
    assert_eq!(app.selected_message_id(), None);
    assert!(app.selected_message(&Some(message(2, None, &[]))).is_none());
}

#[test]
fn own_messages_are_edited() {
    let mut app = app();
    select_message(&mut app, 1);
    let mut context = known(group(&[]), Some(message(ME, Some("mine"), &[])));
    let effects = app.on_command(Command::EditMessage, &context);
    assert!(matches!(effects[..], [Effect::MessageBoxEnd]));
    assert_eq!(app.editing, Some(MessageId::new(GROUP, 200)));
    assert_eq!(app.input.data, "mine");
    // Something is typed now.
    assert!(app.on_command(Command::EditMessage, &context).is_empty());
    app.input.take();
    context.last_edit = Some(250);
    assert!(app.start_editing(&context).is_some());
    assert_eq!(app.editing, Some(MessageId::new(GROUP, 250)));
}

#[test]
fn other_messages_are_not_edited() {
    let mut app = app();
    select_message(&mut app, 1);
    let context = known(group(&[]), Some(message(2, Some("yours"), &[])));
    assert!(app.start_editing(&context).is_none());
    let context = known(group(&[]), Some(message(ME, None, &[])));
    assert!(app.start_editing(&context).is_none());
    assert!(app.start_editing(&nothing()).is_none());
    assert_eq!(app.editing, None);
}

#[test]
fn own_messages_are_deleted_for_everyone() {
    let mut app = app();
    select_message(&mut app, 1);
    let context = known(group(&[]), Some(message(ME, Some("mine"), &[])));
    let effects = app.on_command(Command::DeleteMessage, &context);
    let id = MessageId::new(GROUP, 200);
    assert!(matches!(
        effects[..],
        [Effect::SendDelete(a), Effect::DeleteMessage(b)] if a == id && b == id
    ));
    let context = known(group(&[]), Some(message(2, Some("yours"), &[])));
    assert!(app.delete_selected_message(&context).is_none());
    let context = known(None, Some(message(ME, Some("mine"), &[])));
    assert!(app.delete_selected_message(&context).is_none());
}

#[test]
fn deleted_messages_and_notes_are_removed() {
    let mut app = app();
    select_message(&mut app, 1);
    let mut tombstone = message(ME, None, &[]);
    tombstone.deleted = true;
    let effects = app.delete_selected_message(&known(group(&[]), Some(tombstone))).unwrap();
    let id = MessageId::new(GROUP, 200);
    assert!(matches!(
        effects[..],
        [
            Effect::SendDeleteForMe(a),
            Effect::RemoveMessage(b),
            Effect::RemoveMessageFromView(c)
        ] if a == id && b == id && c == id
    ));
    app.channels.selected = Some(2);
    let notes = Channel { id: NOTES, group_members: None, peer_name: "me".to_string() };
    let mut note = message(ME, Some("note"), &[]);
    note.arrived_at = 50;
    let effects = app.delete_selected_message(&known(Some(notes), Some(note))).unwrap();
    assert!(matches!(effects[0], Effect::SendDeleteForMe(a) if a == MessageId::new(NOTES, 50)));
}

#[test]
fn reactions_are_sent_and_taken_back() {
    let mut app = app();
    select_message(&mut app, 1);
    let context = known(group(&[]), Some(message(2, Some("hi"), &[(2, "x"), (ME, "y")])));
    let effects = app.on_command(Command::React(Some("z".to_string())), &context);
    assert_eq!(effects.len(), 5);
    let id = MessageId::new(GROUP, 200);
    assert!(matches!(
        &effects[0],
        Effect::SendReaction { message_id, emoji, remove: false } if *message_id == id && emoji == "z"
    ));
    assert!(matches!(
        &effects[1],
        Effect::HandleReaction { message_id, user_id: ME, emoji, remove: false }
            if *message_id == id && emoji == "z"
    ));
    assert!(matches!(effects[2], Effect::ResetUnreadMessages));
    assert!(matches!(effects[3], Effect::BubbleUpChannel(0)));
    assert!(matches!(effects[4], Effect::ResetMessageSelection));

    // The box is empty: the user's own reaction is taken back.
    let effects = app.on_command(Command::React(None), &context);
    assert!(matches!(
        &effects[0],
        Effect::SendReaction { emoji, remove: true, .. } if emoji == "y"
    ));
    let context = known(group(&[]), Some(message(2, Some("hi"), &[(2, "x")])));
    assert!(app.on_command(Command::React(None), &context).is_empty());
}

#[test]
fn a_typed_reaction_leaves_the_box() {
    let mut app = app();
    select_message(&mut app, 1);
    app.input = typed(":+1:");
    let mut context = known(group(&[]), Some(message(2, Some("hi"), &[])));
    context.emoji = Some("+".to_string());
    let effects = app.add_reaction(0, None, &context).unwrap();
    assert!(matches!(
        &effects[0],
        Effect::SendReaction { emoji, remove: false, .. } if emoji == "+"
    ));
    assert!(app.input.is_empty());
    // What is no emoji stays, and nothing is taken back.
    app.input = typed("word");
    assert_eq!(app.take_reaction(None), None);
    context.emoji = None;
    context.message = Some(message(2, Some("hi"), &[(ME, "y")]));
    assert!(app.add_reaction(0, None, &context).is_none());
    assert!(app.on_command(Command::React(None), &context).is_empty());
    assert_eq!(app.input.data, "word");
    app.input.take();
    assert_eq!(app.take_reaction(None), Some(None));
    assert!(app.add_reaction(0, Some("z".to_string()), &nothing()).is_none());
}

#[test]
fn links_and_files_are_opened() {
    let mut app = app();
    let context = known(group(&[]), Some(message(2, Some("http://x"), &[])));
    assert!(app.on_command(Command::OpenUrl, &context).is_empty());
    select_message(&mut app, 0);
    assert!(matches!(
        app.on_command(Command::OpenUrl, &context)[..],
        [Effect::Open(OpenTarget::Url)]
    ));
    assert!(matches!(
        app.on_command(Command::OpenFile, &context)[..],
        [Effect::Open(OpenTarget::File)]
    ));
    assert!(app.try_open_url(&None).is_empty());
    assert!(app.try_open_file(&None).is_empty());
    assert!(matches!(
        app.try_open_url_or_file(&context.message)[..],
        [Effect::Open(OpenTarget::UrlOrFile)]
    ));
    assert!(matches!(after_open(OpenTarget::Url, true)[..], [Effect::ResetMessageSelection]));
    assert!(after_open(OpenTarget::Url, false).is_empty());
    assert!(matches!(
        after_open(OpenTarget::UrlOrFile, true)[..],
        [Effect::ResetMessageSelection]
    ));
    assert!(matches!(
        after_open(OpenTarget::UrlOrFile, false)[..],
        [Effect::Open(OpenTarget::File)]
    ));
    assert!(after_open(OpenTarget::File, false).is_empty());
}

#[test]
fn keys_are_typed_into_the_active_box() {
    let mut app = app();
    assert!(hit(&mut app, KeyCode::Char('h'), &nothing()).is_empty());
    assert!(hit(&mut app, KeyCode::Char('\r'), &nothing()).is_empty());
    assert_eq!(app.input.data, "h\n");
    app.select_channel.is_shown = true;
    hit(&mut app, KeyCode::Char('q'), &nothing());
    assert_eq!(app.select_channel.input.data, "q");
    assert_eq!(app.input.data, "h\n");
}

#[test]
fn enter_sends_opens_or_breaks_the_line() {
    let mut app = app();
    select_message(&mut app, 0);
    let context = known(group(&[]), Some(message(2, Some("http://x"), &[])));
    assert!(matches!(
        hit(&mut app, KeyCode::Enter, &context)[..],
        [Effect::Open(OpenTarget::UrlOrFile)]
    ));
    app.input = typed("hi");
    assert!(matches!(hit(&mut app, KeyCode::Enter, &context)[..], [Effect::SendInput(0)]));
    app.is_multiline_input = true;
    assert!(matches!(
        hit(&mut app, KeyCode::Enter, &context)[..],
        [Effect::Edit(Edit::NewLine)]
    ));
    app.is_multiline_input = false;
    app.channels.selected = None;
    assert!(hit(&mut app, KeyCode::Enter, &context).is_empty());
}

#[test]
fn enter_chooses_a_channel() {
    let mut app = app();
    app.select_channel.is_shown = true;
    assert!(hit(&mut app, KeyCode::Enter, &nothing()).is_empty());
    assert!(app.select_channel.is_shown);
    app.select_channel.selected_channel_id = Some(NOTES);
    let effects = hit(&mut app, KeyCode::Enter, &nothing());
    assert!(matches!(
        effects[..],
        [Effect::SwapChannelDraft(Some(GROUP), Some(NOTES))]
    ));
    assert_eq!(app.channels.selected, Some(2));
    assert!(!app.select_channel.is_shown);
}

#[test]
fn a_channel_that_disappeared_is_an_error() {
    let mut app = app();
    app.select_channel.is_shown = true;
    app.select_channel.selected_channel_id = Some(ChannelId::User(99));
    let result = app.on_key(press(KeyCode::Enter), &nothing());
    assert!(matches!(result, Err(AppError::ChannelDisappeared)));
    assert!(!app.select_channel.is_shown);
    assert_eq!(app.channels.selected, Some(0));
}

#[test]
fn escape_leaves_the_edit_first() {
    let mut app = app();
    app.editing = Some(MessageId::new(GROUP, 200));
    app.input = typed("mine");
    assert!(hit(&mut app, KeyCode::Esc, &nothing()).is_empty());
    assert_eq!(app.editing, None);
    assert!(app.input.is_empty());
    app.input = typed("x");
    assert!(matches!(
        hit(&mut app, KeyCode::Esc, &nothing())[..],
        [Effect::ResetMessageSelection]
    ));
    assert_eq!(app.input.data, "x");
    assert!(!app.reset_editing());
}

#[test]
fn bound_keys_run_their_command() {
    let mut app = app();
    bind(&mut app, KeyCode::Char('x'), Command::Quit);
    assert!(hit(&mut app, KeyCode::Char('x'), &nothing()).is_empty());
    assert!(app.should_quit);
    assert!(app.input.is_empty());
}

#[test]
fn an_at_opens_the_mention_popup() {
    let mut app = app();
    app.input = typed("hi ");
    let context = known(group(&["Alice", "Bob", "Albert"]), None);
    assert!(hit(&mut app, KeyCode::Char('@'), &context).is_empty());
    let popup = app.mention_popup.as_ref().unwrap();
    assert_eq!(popup.at_byte_pos, 3);
    assert_eq!(popup.matches.len(), 3);
    assert_eq!(popup.selected, Some(0));
    hit(&mut app, KeyCode::Down, &context);
    hit(&mut app, KeyCode::Down, &context);
    hit(&mut app, KeyCode::Down, &context);
    assert_eq!(app.mention_popup.as_ref().unwrap().selected, Some(2));
    // Two entries are left: the selection moves to the last of them.
    hit(&mut app, KeyCode::Char('a'), &context);
    assert_eq!(app.mention_popup.as_ref().unwrap().matches.len(), 2);
    assert_eq!(app.mention_popup.as_ref().unwrap().selected, Some(1));
    hit(&mut app, KeyCode::Up, &context);
    hit(&mut app, KeyCode::Up, &context);
    assert_eq!(app.mention_popup.as_ref().unwrap().selected, Some(0));
    hit(&mut app, KeyCode::Down, &context);
    hit(&mut app, KeyCode::Enter, &context);
    assert!(app.mention_popup.is_none());
    assert_eq!(app.input.data, "hi @Albert ");
    assert_eq!(app.input.cursor, Cursor { idx: 11, col: 11 });
    assert!(app.is_wf());
}

#[test]
fn accepting_keeps_the_text_behind_the_cursor() {
    let mut app = app();
    app.input = typed("\u{e9} @b");
    app.input.data.push_str(" end");
    app.mention_popup = Some(MentionPopup {
        at_byte_pos: 3,
        matches: vec![Member { id: 10, name: "B\u{f6}b".to_string() }],
        selected: None,
    });
    assert!(app.is_wf());
    app.accept_mention_popup();
    assert_eq!(app.input.data, "\u{e9} @B\u{f6}b  end");
    assert_eq!(app.input.cursor, Cursor { idx: 9, col: 7 });
    assert!(app.mention_popup.is_none());
}

#[test]
fn the_mention_popup_closes() {
    let context = known(group(&["Alice", "Bob"]), None);
    let mut app = app();
    hit(&mut app, KeyCode::Char('@'), &context);
    hit(&mut app, KeyCode::Esc, &context);
    assert!(app.mention_popup.is_none());
    assert_eq!(app.input.data, "@");
    // Nobody matches.
    hit(&mut app, KeyCode::Backspace, &context);
    app.input.take();
    hit(&mut app, KeyCode::Char('@'), &context);
    hit(&mut app, KeyCode::Char('z'), &context);
    assert!(app.mention_popup.is_none());
    assert_eq!(app.input.data, "@z");
    // The at goes.
    app.input.take();
    hit(&mut app, KeyCode::Char('@'), &context);
    hit(&mut app, KeyCode::Char('b'), &context);
    assert_eq!(app.mention_popup.as_ref().unwrap().matches.len(), 1);
    hit(&mut app, KeyCode::Backspace, &context);
    assert_eq!(app.mention_popup.as_ref().unwrap().matches.len(), 2);
    hit(&mut app, KeyCode::Backspace, &context);
    assert!(app.mention_popup.is_none());
    assert_eq!(app.input.data, "");
    // Another key goes on to what it is bound to.
    hit(&mut app, KeyCode::Char('@'), &context);
    bind(&mut app, KeyCode::F(4), Command::Redraw);
    hit(&mut app, KeyCode::F(4), &context);
    assert!(app.mention_popup.is_none());
    assert!(app.should_clear);
}

#[test]
fn the_mention_popup_stays_closed() {
    let mut app = app();
    hit(&mut app, KeyCode::Char('@'), &known(group(&[]), None));
    assert!(app.mention_popup.is_none());
    hit(&mut app, KeyCode::Char('@'), &nothing());
    assert!(app.mention_popup.is_none());
    app.mention_completion = MentionCompletionStyle::Cycle;
    hit(&mut app, KeyCode::Char('@'), &known(group(&["Alice"]), None));
    assert!(app.mention_popup.is_none());
    assert_eq!(app.input.data, "@@@");
}

#[test]
fn an_at_in_the_channel_popup_needs_text_in_the_message_box() {
    let mut app = app();
    app.select_channel.is_shown = true;
    let context = known(group(&["Alice"]), None);
    assert!(app.try_on_key(press(KeyCode::Char('@')), &context).is_none());
    assert!(app.select_channel.input.is_empty());
    app.input = typed("x");
    assert!(hit(&mut app, KeyCode::Char('@'), &context).is_empty());
    assert_eq!(app.select_channel.input.data, "@");
}

#[test]
fn state_that_does_not_fit_is_noticed() {
    let mut app = app();
    assert!(app.is_wf());
    app.channels.selected = Some(3);
    assert!(!app.is_wf());
    app.channels.selected = Some(2);
    app.mention_popup = Some(MentionPopup { at_byte_pos: 0, matches: Vec::new(), selected: None });
    assert!(!app.is_wf());
}
