use chat_input::app::{
    App, MentionCompletionStyle, MentionCycle, MentionPopup, SelectChannel,
};
use chat_input::chat::{Channel, ChannelId, Context, Member};
use chat_input::command::Command;
use chat_input::completion::Completion;
use chat_input::effect::Effect;
use chat_input::input::{Cursor, Input};
use chat_input::keys::{KeyBindings, KeyCode, KeyEvent, KeyEventKind};
use chat_input::lists::{ChannelList, MessageLists};
use chat_input::mentions::{filter_members, find_mention, find_shared, matching_members};

const GROUP: ChannelId = ChannelId::Group { high: 7, low: 8 };

const HANDLED: Completion = Completion { handled: true, bell: false };
const BELL: Completion = Completion { handled: true, bell: true };
const UNHANDLED: Completion = Completion { handled: false, bell: false };

fn member(id: u128, name: &str) -> Member {
    Member { id, name: name.to_string() }
}

fn group(names: &[&str]) -> Option<Channel> {
    let mut members = Vec::new();
    for (i, name) in names.iter().enumerate() {
        members.push(member(i as u128 + 10, name));
    }
    Some(Channel { id: GROUP, group_members: Some(members), peer_name: String::new() })
}

fn typed(text: &str, style: MentionCompletionStyle) -> App {
    let mut input = Input::new();
    for c in text.chars() {
        input.put_char(c);
    }
    App {
        user_id: 1,
        input,
        select_channel: SelectChannel {
            is_shown: false,
            input: Input::new(),
            selected_channel_id: None,
        },
        channels: ChannelList { items: vec![GROUP], selected: Some(0) },
        messages: MessageLists::new(),
        editing: None,
        mention_completion: style,
        mention_popup: None,
        mention_cycle: None,
        mode_keybindings: KeyBindings::new(),
        is_multiline_input: false,
        is_help: false,
        help_scroll: (0, 0),
        should_quit: false,
        should_clear: false,
        open_editor_requested: false,
    }
}

fn context(channel: Option<Channel>) -> Context {
    Context { channel, message: None, last_edit: None, emoji: None }
}

fn press(code: KeyCode) -> KeyEvent {
    KeyEvent { code, modifiers: 0, kind: KeyEventKind::Press }
}

#[test]
fn mentions_start_behind_white_space() {
    assert_eq!(find_mention("@al"), Some(0));
    assert_eq!(find_mention("hi @al"), Some(3));
    assert_eq!(find_mention("hi\t@"), Some(3));
    assert_eq!(find_mention("mail@al"), None);
    assert_eq!(find_mention("@a b@c"), None);
    assert_eq!(find_mention("none"), None);
    assert_eq!(find_mention("\u{a0}@al"), None);
}

#[test]
fn names_match_whatever_their_case() {
    let members = vec![member(1, "Alice"), member(2, "bob"), member(3, "ALAN")];
    let found = matching_members(&members, "aL");
    assert_eq!(found.len(), 2);
    assert_eq!(found[0].id, 1);
    assert_eq!(found[1].id, 3);
    assert_eq!(matching_members(&members, "").len(), 3);
    assert!(matching_members(&members, "x").is_empty());
    let umlaut = vec![member(4, "\u{dc}nal")];
    assert_eq!(matching_members(&umlaut, "\u{fc}N").len(), 1);
}

#[test]
fn members_are_told_by_their_lower_case_names() {
    let members = vec![member(1, "A"), member(2, "B")];
    let lowered = vec!["xa".to_string(), "yb".to_string()];
    let found = filter_members(&members, &lowered, "y");
    assert_eq!(found.len(), 1);
    assert_eq!(found[0].id, 2);
}

#[test]
fn the_last_beginning_that_all_names_share_is_found() {
    let texts = |list: &[&str]| list.iter().map(|s| s.to_string()).collect::<Vec<String>>();
    let beginnings = texts(&["", "a", "al", "ale"]);
    assert_eq!(find_shared(&beginnings, &texts(&["alex", "alexa"])), 3);
    assert_eq!(find_shared(&beginnings, &texts(&["alex", "alan", "alexa"])), 2);
    assert_eq!(find_shared(&beginnings, &texts(&["alex", "bob"])), 0);
    assert_eq!(find_shared(&Vec::new(), &texts(&["bob"])), 0);
}

#[test]
fn names_are_cut_where_their_agreeing_characters_end() {
    // The lower case of the first letter is longer than the letter.
    let mut app = typed("@\u{130}", MentionCompletionStyle::Readline);
    assert_eq!(app.try_mention_completion(&group(&["\u{130}brahim", "\u{130}smail"])), BELL);
    assert_eq!(app.input.data, "@\u{130}");
    // The lower case of the first letter is shorter than the letter.
    let mut app = typed("@\u{1e9e}", MentionCompletionStyle::Readline);
    let channel = group(&["\u{1e9e}x\u{e9}", "\u{1e9e}x\u{e9}y"]);
    assert_eq!(app.try_mention_completion(&channel), BELL);
    assert_eq!(app.input.data, "@\u{1e9e}x\u{e9}");
    let mut app = typed("@a", MentionCompletionStyle::Readline);
    let channel = group(&["a\u{e9}\u{e9}b", "A\u{c9}\u{e9}c"]);
    assert_eq!(app.try_mention_completion(&channel), BELL);
    assert_eq!(app.input.data, "@a\u{e9}\u{e9}");
    assert_eq!(app.input.cursor, Cursor { idx: 6, col: 4 });
}

#[test]
fn nothing_is_put_in_where_what_is_typed_ends_inside_a_letter() {
    let mut app = typed("@i\u{307}", MentionCompletionStyle::Readline);
    let channel = group(&["\u{130}\u{e9}a", "\u{130}\u{e9}b"]);
    assert_eq!(app.try_mention_completion(&channel), BELL);
    assert_eq!(app.input.data, "@i\u{307}");
}

#[test]
fn a_single_match_is_completed_with_a_space() {
    let mut app = typed("hi @al", MentionCompletionStyle::Readline);
    let channel = group(&["Alice", "Bob"]);
    assert_eq!(app.try_mention_completion(&channel), HANDLED);
    assert_eq!(app.input.data, "hi @alice ");
    assert_eq!(app.input.cursor, Cursor { idx: 10, col: 10 });
    assert!(app.is_wf());
}

#[test]
fn a_single_match_is_completed_in_the_middle() {
    let mut app = typed("@b", MentionCompletionStyle::Readline);
    app.input.data = "@b!".to_string();
    assert_eq!(app.try_mention_completion(&group(&["Alice", "Bob"])), HANDLED);
    assert_eq!(app.input.data, "@bob !");
    assert_eq!(app.input.cursor, Cursor { idx: 5, col: 5 });
    let mut app = typed("@b", MentionCompletionStyle::Readline);
    app.input.data = "@b there".to_string();
    assert_eq!(app.try_mention_completion(&group(&["B\u{e9}\u{e9}"])), HANDLED);
    assert_eq!(app.input.data, "@b\u{e9}\u{e9}  there");
    assert_eq!(app.input.cursor, Cursor { idx: 7, col: 5 });
}

#[test]
fn several_matches_are_completed_as_far_as_they_agree() {
    let mut app = typed("@a", MentionCompletionStyle::Readline);
    let channel = group(&["Alexa", "Alexandra", "Alex"]);
    assert_eq!(app.try_mention_completion(&channel), BELL);
    assert_eq!(app.input.data, "@alex");
    assert_eq!(app.input.cursor, Cursor { idx: 5, col: 5 });
    assert_eq!(app.try_mention_completion(&channel), BELL);
    assert_eq!(app.input.data, "@alex");
}

#[test]
fn completion_stops_at_the_names_that_differ_first() {
    let mut app = typed("@a", MentionCompletionStyle::Readline);
    assert_eq!(app.try_mention_completion(&group(&["Alexa", "Alan", "Alexandra"])), BELL);
    assert_eq!(app.input.data, "@al");
}

#[test]
fn completion_without_a_match_or_a_mention() {
    let channel = group(&["Alice"]);
    let mut app = typed("@x", MentionCompletionStyle::Readline);
    assert_eq!(app.try_mention_completion(&channel), HANDLED);
    assert_eq!(app.input.data, "@x");
    let mut app = typed("@", MentionCompletionStyle::Readline);
    assert_eq!(app.try_mention_completion(&channel), BELL);
    let mut app = typed("al", MentionCompletionStyle::Readline);
    assert_eq!(app.try_mention_completion(&channel), UNHANDLED);
    let mut app = typed("@al", MentionCompletionStyle::Readline);
    assert_eq!(app.try_mention_completion(&None), UNHANDLED);
    app.channels.selected = None;
    assert_eq!(app.try_mention_completion(&channel), UNHANDLED);
}

#[test]
fn the_other_user_of_a_conversation_is_completed() {
    let mut app = typed("@c", MentionCompletionStyle::Readline);
    let channel = Channel {
        id: ChannelId::User(5),
        group_members: None,
        peer_name: "Carol".to_string(),
    };
    assert_eq!(app.try_mention_completion(&Some(channel)), HANDLED);
    assert_eq!(app.input.data, "@carol ");
    let mut app = typed("@c", MentionCompletionStyle::Readline);
    let channel = Channel { id: GROUP, group_members: None, peer_name: "Carol".to_string() };
    assert_eq!(app.try_mention_completion(&Some(channel)), UNHANDLED);
}

#[test]
fn given_names_are_completed_with() {
    let mut app = typed("@o", MentionCompletionStyle::Readline);
    let members = vec![member(1, "One"), member(2, "Only")];
    assert_eq!(app.complete_with("o", &members, 2), BELL);
    assert_eq!(app.input.data, "@on");
    assert_eq!(app.complete_with("on", &members, 2), BELL);
    assert_eq!(app.input.data, "@on");
    assert_eq!(app.complete_with("on", &vec![member(1, "One")], 0), HANDLED);
    assert_eq!(app.input.data, "@one ");
    assert_eq!(app.complete_with("x", &Vec::new(), 0), HANDLED);
    assert_eq!(app.input.data, "@one ");
}

#[test]
fn tabs_go_through_the_names_and_start_again() {
    let mut app = typed("hi @a", MentionCompletionStyle::Cycle);
    let channel = group(&["Alice", "Bob", "Ann", "Al"]);
    assert_eq!(app.try_mention_completion_cycling(&channel), HANDLED);
    assert_eq!(app.input.data, "hi @alice");
    assert_eq!(app.try_mention_completion_cycling(&channel), HANDLED);
    assert_eq!(app.input.data, "hi @Ann");
    assert_eq!(app.input.cursor, Cursor { idx: 7, col: 7 });
    assert_eq!(app.try_mention_completion_cycling(&channel), HANDLED);
    assert_eq!(app.input.data, "hi @Al");
    assert_eq!(app.try_mention_completion_cycling(&channel), HANDLED);
    assert_eq!(app.input.data, "hi @Alice");
    assert_eq!(app.try_mention_completion_cycling(&channel), HANDLED);
    assert_eq!(app.input.data, "hi @Ann");
    assert!(app.is_wf());
}

#[test]
fn as_many_tabs_as_names_come_round() {
    let mut app = typed("hi @Ann", MentionCompletionStyle::Cycle);
    app.input.data.push_str(" end");
    app.mention_popup = Some(MentionPopup {
        at_byte_pos: 3,
        matches: Vec::new(),
        selected: None,
    });
    app.mention_cycle = Some(MentionCycle {
        at_byte_pos: 3,
        matches: vec!["\u{c9}va".to_string(), "Ann".to_string(), "Bo".to_string()],
        index: 1,
    });
    let cursor = app.input.cursor;
    for expected in ["hi @Bo end", "hi @\u{c9}va end", "hi @Ann end"] {
        assert_eq!(app.try_mention_completion_cycling(&None), HANDLED);
        assert_eq!(app.input.data, expected);
    }
    assert_eq!(app.input.cursor, cursor);
    let cycle = app.mention_cycle.as_ref().unwrap();
    assert_eq!((cycle.at_byte_pos, cycle.index), (3, 1));
    assert_eq!(cycle.matches.len(), 3);
}

#[test]
fn tabs_keep_the_text_behind_the_cursor() {
    let mut app = typed("@", MentionCompletionStyle::Cycle);
    app.input.data = "@ end".to_string();
    let channel = group(&["\u{c9}va", "Bo"]);
    assert_eq!(app.try_mention_completion_cycling(&channel), HANDLED);
    assert_eq!(app.input.data, "@\u{c9}va end");
    assert_eq!(app.input.cursor, Cursor { idx: 5, col: 4 });
    assert_eq!(app.try_mention_completion_cycling(&channel), HANDLED);
    assert_eq!(app.input.data, "@Bo end");
    assert_eq!(app.input.cursor, Cursor { idx: 3, col: 3 });

    let mut app = typed("@", MentionCompletionStyle::Cycle);
    app.input.data = "@ end".to_string();
    let channel = group(&["Bo", "\u{c9}va"]);
    assert_eq!(app.try_mention_completion_cycling(&channel), HANDLED);
    assert_eq!(app.try_mention_completion_cycling(&channel), HANDLED);
    assert_eq!(app.input.data, "@\u{c9}va end");
    assert_eq!(app.input.cursor, Cursor { idx: 5, col: 4 });
}

#[test]
fn a_single_name_in_the_cycle_gets_a_space() {
    let mut app = typed("@bo", MentionCompletionStyle::Cycle);
    let channel = group(&["Alice", "Bob"]);
    assert_eq!(app.try_mention_completion_cycling(&channel), HANDLED);
    assert_eq!(app.input.data, "@bob ");
    assert_eq!(app.input.cursor, Cursor { idx: 5, col: 5 });
    // The cursor is no longer behind the name, and nobody is called "bob ".
    assert_eq!(app.try_mention_completion_cycling(&channel), BELL);
    assert!(app.mention_cycle.is_none());
}

#[test]
fn the_cycle_does_not_start_without_a_mention() {
    let channel = group(&["Alice"]);
    let mut app = typed("al", MentionCompletionStyle::Cycle);
    assert_eq!(app.try_mention_completion_cycling(&channel), UNHANDLED);
    let mut app = typed("@zed", MentionCompletionStyle::Cycle);
    assert_eq!(app.try_mention_completion_cycling(&channel), BELL);
    let mut app = typed("@al", MentionCompletionStyle::Cycle);
    assert_eq!(app.try_mention_completion_cycling(&None), UNHANDLED);
}

#[test]
fn a_cycle_step_is_taken_by_itself() {
    let mut app = typed("@Bo", MentionCompletionStyle::Cycle);
    app.mention_cycle = Some(MentionCycle {
        at_byte_pos: 0,
        matches: vec!["Bo".to_string(), "Ann".to_string()],
        index: 0,
    });
    app.advance_cycle();
    assert_eq!(app.input.data, "@Ann");
    assert_eq!(app.mention_cycle.as_ref().unwrap().index, 1);
    let mut app = typed("@B", MentionCompletionStyle::Cycle);
    app.start_cycle(0, "B", &vec![member(1, "Bo"), member(2, "Bea")]);
    assert_eq!(app.input.data, "@Bo");
    assert_eq!(app.mention_cycle.as_ref().unwrap().matches.len(), 2);
}

#[test]
fn tab_completes_through_the_reaction_command() {
    let channel = group(&["Alice", "Ann"]);
    let mut app = typed("@al", MentionCompletionStyle::Readline);
    let effects = app.on_command(Command::React(None), &context(channel));
    assert!(effects.is_empty());
    assert_eq!(app.input.data, "@alice ");

    let channel = group(&["Alice", "Ann"]);
    let mut app = typed("@", MentionCompletionStyle::Readline);
    let effects = app.on_command(Command::React(None), &context(channel));
    assert!(matches!(effects[..], [Effect::Bell]));

    let channel = group(&["Alice", "Ann"]);
    let mut app = typed("@a", MentionCompletionStyle::Off);
    let effects = app.on_command(Command::React(None), &context(channel));
    assert!(effects.is_empty());
    assert_eq!(app.input.data, "@a");
}

#[test]
fn a_key_other_than_tab_ends_the_cycle() {
    let mut app = typed("@a", MentionCompletionStyle::Cycle);
    let channel = group(&["Alice", "Ann"]);
    assert_eq!(app.try_mention_completion_cycling(&channel), HANDLED);
    assert!(app.mention_cycle.is_some());
    assert!(app.try_on_key(press(KeyCode::Tab), &context(None)).unwrap().unwrap().is_empty());
    assert!(app.mention_cycle.is_some());
    assert!(app.try_on_key(press(KeyCode::Left), &context(None)).unwrap().unwrap().is_empty());
    assert!(app.mention_cycle.is_none());
}

#[test]
fn names_that_cannot_be_cut_are_refused() {
    // In lower case the name is one byte longer than as it is written, so that what is typed ends
    // inside a character of it.
    let mut app = typed("@i\u{307}", MentionCompletionStyle::Readline);
    app.mode_keybindings.bind(
        chat_input::command::WindowMode::Anywhere,
        chat_input::keys::KeyCombination {
            first: KeyCode::Tab,
            second: None,
            third: None,
            modifiers: 0,
        },
        Command::React(None),
    );
    let channel = group(&["\u{130}\u{e9}"]);
    assert!(app.try_on_key(press(KeyCode::Tab), &context(channel)).is_none());
    assert_eq!(app.input.data, "@i\u{307}");
    app.mention_completion = MentionCompletionStyle::Cycle;
    let channel = group(&["\u{130}\u{e9}"]);
    assert!(app.try_on_key(press(KeyCode::Tab), &context(channel)).is_none());
    let channel = group(&["Bob"]);
    assert!(app.try_on_key(press(KeyCode::Tab), &context(channel)).is_some());
}
