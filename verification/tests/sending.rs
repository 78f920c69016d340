use chat_input::app::{App, MentionCompletionStyle, SelectChannel};
use chat_input::attachments::{
    are_matches, attachments_of, clipboard_attachment, extract_attachments, file_attachment,
    named_attachment, names_clipboard, screenshot_attachment, ClipboardImage, Fetched, Moment,
    FIRST_SECOND, LAST_SECOND,
};
use chat_input::body::{
    ends_word, find_named, is_name_end, mentions_fit, parse_mentions, parse_mentions_with_members, write_pieces,
    AssociatedValue, BodyRange, Piece, PLACEHOLDER,
};
use chat_input::chat::{Channel, ChannelId, Member, Message, MessageId};
use chat_input::effect::Effect;
use chat_input::input::Input;
use chat_input::keys::KeyBindings;
use chat_input::lists::{ChannelList, MessageList, MessageLists};
use chat_input::send::Store;
use chrono::TimeZone;

const GROUP: ChannelId = ChannelId::Group { high: 7, low: 8 };

fn member(id: u128, name: &str) -> Member {
    Member { id, name: name.to_string() }
}

fn group(members: Vec<Member>) -> Channel {
    Channel { id: GROUP, group_members: Some(members), peer_name: String::new() }
}

fn mention(start: u16, id: u128) -> BodyRange {
    BodyRange { start, end: start + 1, value: AssociatedValue::MentionUuid(id) }
}

fn app(text: &str) -> App {
    let mut input = Input::new();
    for c in text.chars() {
        input.put_char(c);
    }
    let mut messages = MessageLists::new();
    messages.insert(GROUP, MessageList { items: vec![100, 200], selected: Some(0) });
    App {
        user_id: 1,
        input,
        select_channel: SelectChannel {
            is_shown: false,
            input: Input::new(),
            selected_channel_id: None,
        },
        channels: ChannelList { items: vec![ChannelId::User(3), GROUP], selected: Some(1) },
        messages,
        editing: None,
        mention_completion: MentionCompletionStyle::Off,
        mention_popup: None,
        mention_cycle: None,
        mode_keybindings: KeyBindings::new(),
        is_multiline_input: false,
        is_help: false,
        help_scroll: (0, 0),
        should_quit: false,
        should_clear: false,
        open_editor_requested: false,
    }
}

fn message() -> Option<Message> {
    Some(Message {
        from_id: 2,
        message: Some("quoted".to_string()),
        arrived_at: 200,
        deleted: false,
        reactions: Vec::new(),
    })
}

#[test]
fn mentions_become_placeholders() {
    let members = vec![member(10, "Alice"), member(11, "Bob B")];
    let (text, ranges) = parse_mentions_with_members(
        &members,
        "hi @alice, and @BOB B!".to_string(),
    );
    assert_eq!(text, "hi \u{fffc}, and \u{fffc}!");
    assert_eq!(ranges, vec![mention(3, 10), mention(10, 11)]);
}

#[test]
fn names_end_at_white_space_or_punctuation() {
    let members = vec![member(10, "Al")];
    let parse = |text: &str| parse_mentions_with_members(&members, text.to_string());
    assert_eq!(parse("@Alice"), ("@Alice".to_string(), vec![]));
    assert_eq!(parse("@Al"), ("\u{fffc}".to_string(), vec![mention(0, 10)]));
    assert_eq!(parse("@Al\n"), ("\u{fffc}\n".to_string(), vec![mention(0, 10)]));
    assert_eq!(parse("@Al_x"), ("\u{fffc}_x".to_string(), vec![mention(0, 10)]));
    assert_eq!(parse("@Al1"), ("@Al1".to_string(), vec![]));
    assert_eq!(parse("@Al\u{e9}"), ("@Al\u{e9}".to_string(), vec![]));
    // A fullwidth comma, a curly apostrophe, an emoji.
    assert_eq!(parse("@Al\u{ff0c}"), ("\u{fffc}\u{ff0c}".to_string(), vec![mention(0, 10)]));
    assert_eq!(parse("@Al\u{2019}s"), ("\u{fffc}\u{2019}s".to_string(), vec![mention(0, 10)]));
    assert_eq!(parse("@Al\u{1f600}"), ("\u{fffc}\u{1f600}".to_string(), vec![mention(0, 10)]));
    assert_eq!(parse("@Al\u{3000}x"), ("\u{fffc}\u{3000}x".to_string(), vec![mention(0, 10)]));
    assert_eq!(parse("x@Al"), ("x\u{fffc}".to_string(), vec![mention(1, 10)]));
}

#[test]
fn letters_and_numbers_go_on_with_a_name() {
    let members = vec![member(10, "Al")];
    for c in '\u{80}'..='\u{ffff}' {
        let (_, ranges) = parse_mentions_with_members(&members, format!("@Al{c}"));
        assert_eq!(ranges.is_empty(), c.is_alphanumeric());
    }
    for c in '\0'..='\u{7f}' {
        let (_, ranges) = parse_mentions_with_members(&members, format!("@Al{c}"));
        assert_eq!(ranges.is_empty(), !c.is_whitespace() && !c.is_ascii_punctuation());
    }
    assert!(ends_word('\u{ff0c}', false));
    assert!(!ends_word('\u{ff0c}', true));
    assert!(ends_word(',', true));
    assert!(!ends_word('x', false));
}

#[test]
fn the_first_member_that_fits_is_mentioned() {
    let members = vec![member(10, "Bob"), member(11, "bob b"), member(12, "BOB")];
    let (text, ranges) = parse_mentions_with_members(&members, "@bob b".to_string());
    assert_eq!(text, "\u{fffc} b");
    assert_eq!(ranges, vec![mention(0, 10)]);
}

#[test]
fn only_the_mention_is_replaced() {
    let members = vec![member(10, "Jos\u{e9}")];
    let (text, ranges) = parse_mentions_with_members(&members, "@Jos\u{e9} hi".to_string());
    assert_eq!(text, "\u{fffc} hi");
    assert_eq!(ranges, vec![mention(0, 10)]);
    let (text, _) = parse_mentions_with_members(&members, "a @JOS\u{c9}, b".to_string());
    assert_eq!(text, "a \u{fffc}, b");
    let (text, _) = parse_mentions_with_members(&members, "@jos\u{e9}".to_string());
    assert_eq!(text, "\u{fffc}");
    // The lower case of the first letter has two characters.
    let members = vec![member(11, "\u{130}b")];
    for typed in ["@\u{130}b x", "@i\u{307}B x"] {
        let (text, ranges) = parse_mentions_with_members(&members, typed.to_string());
        assert_eq!(text, "\u{fffc} x");
        assert_eq!(ranges, vec![mention(0, 11)]);
    }
}

#[test]
fn a_name_that_ends_inside_a_letter_is_no_mention() {
    let members = vec![member(10, "i")];
    let (text, ranges) = parse_mentions_with_members(&members, "@\u{130}".to_string());
    assert_eq!(text, "@\u{130}");
    assert!(ranges.is_empty());
}

#[test]
fn names_put_back_give_what_was_typed() {
    let members = vec![member(10, "Alice"), member(11, "Bob B")];
    let typed = "hi @ALICE and @bob b, not @bobby. @";
    let (text, ranges) = parse_mentions_with_members(&members, typed.to_string());
    let mut back = text.clone();
    for range in ranges.iter().rev() {
        let AssociatedValue::MentionUuid(id) = range.value;
        let name = &members.iter().find(|m| m.id == id).unwrap().name;
        let at = back.char_indices().nth(range.start as usize).unwrap().0;
        back.replace_range(at..at + PLACEHOLDER.len_utf8(), &format!("@{name}"));
    }
    assert_eq!(ranges.len(), 2);
    assert_eq!(back.to_ascii_lowercase(), typed.to_ascii_lowercase());
}

#[test]
fn text_without_mentions_stays() {
    let channel = group(vec![member(10, "Alice")]);
    let (text, ranges) = parse_mentions(&channel, "no mention \u{1f600}".to_string());
    assert_eq!(text, "no mention \u{1f600}");
    assert!(ranges.is_empty());
    // A group of which no members are known.
    let channel = Channel { id: GROUP, group_members: None, peer_name: "Al".to_string() };
    let (text, ranges) = parse_mentions(&channel, "@Al".to_string());
    assert_eq!(text, "@Al");
    assert!(ranges.is_empty());
    let channel = Channel {
        id: ChannelId::User(5),
        group_members: None,
        peer_name: "Al".to_string(),
    };
    let (text, ranges) = parse_mentions(&channel, "@Al".to_string());
    assert_eq!(text, "\u{fffc}");
    assert_eq!(ranges, vec![mention(0, 5)]);
}

#[test]
fn named_members_are_found() {
    let lowered = vec!["xy".to_string(), "x".to_string()];
    assert_eq!(find_named("X yz", &lowered), Some((1, 1)));
    assert_eq!(find_named("XY", &lowered), Some((0, 2)));
    assert_eq!(find_named("Xa", &lowered), None);
    assert_eq!(find_named("", &lowered), None);
    let lowered = vec!["i\u{307}".to_string()];
    assert_eq!(find_named("\u{130}!", &lowered), Some((0, 1)));
}

#[test]
fn names_end_where_their_lower_case_does() {
    let rest: Vec<char> = "Al\u{e9} x".chars().collect();
    assert!(is_name_end(&rest, 3, "abc", "abc"));
    assert!(!is_name_end(&rest, 3, "abc", "abd"));
    assert!(!is_name_end(&rest, 2, "abc", "abc"));
    assert!(is_name_end(&rest, 5, "", ""));
}

#[test]
fn pieces_are_written_down() {
    let pieces = vec![Piece::Plain('a'), Piece::Mention(9), Piece::Plain('b'), Piece::Mention(8)];
    let (text, ranges) = write_pieces(&pieces);
    assert_eq!(text, format!("a{PLACEHOLDER}b{PLACEHOLDER}"));
    assert_eq!(ranges, vec![mention(1, 9), mention(3, 8)]);
}

#[test]
fn long_texts_do_not_fit_where_there_are_members() {
    let channel = group(vec![member(10, "Alice")]);
    assert!(mentions_fit(&channel, &"x".repeat(65535)));
    assert!(!mentions_fit(&channel, &"x".repeat(65536)));
    let channel = Channel { id: GROUP, group_members: None, peer_name: String::new() };
    assert!(mentions_fit(&channel, &"x".repeat(65536)));
}

#[test]
fn text_without_links_is_trimmed() {
    let (text, paths) = extract_attachments("  hello there \n", &Vec::new());
    assert_eq!(text, "hello there");
    assert!(paths.is_empty());
}

#[test]
fn links_are_cut_out() {
    let input = "see  file:///tmp/a.png and file://clip end ";
    let first = input.find("file:///").unwrap();
    let second = input.find("file://clip").unwrap();
    let matches = vec![
        (first, first + "file:///tmp/a.png".len()),
        (second, second + "file://clip".len()),
    ];
    assert!(are_matches(input, &matches));
    let (text, paths) = extract_attachments(input, &matches);
    assert_eq!(text, "see and end");
    assert_eq!(paths, vec!["/tmp/a.png".to_string(), "clip".to_string()]);
}

#[test]
fn a_link_between_other_characters() {
    let input = "\u{e9} \u{a0}file://x\u{fc}!";
    let start = input.find("file").unwrap();
    let matches = vec![(start, input.len() - 1)];
    assert!(are_matches(input, &matches));
    let (text, paths) = extract_attachments(input, &matches);
    assert_eq!(text, "\u{e9}!");
    assert_eq!(paths, vec!["x\u{fc}".to_string()]);
}

#[test]
fn matches_that_are_no_links_stay() {
    let input = "a http://x b";
    let (text, paths) = extract_attachments(input, &vec![(2, 10)]);
    assert_eq!(text, "a http://x b");
    assert!(paths.is_empty());
}

#[test]
fn matches_that_do_not_fit_are_noticed() {
    assert!(are_matches("abcd", &vec![(0, 1), (1, 4)]));
    assert!(!are_matches("abcd", &vec![(0, 2), (1, 4)]));
    assert!(!are_matches("abcd", &vec![(2, 1)]));
    assert!(!are_matches("abcd", &vec![(2, 5)]));
    assert!(!are_matches("\u{e9}", &vec![(1, 2)]));
}

#[test]
fn the_clipboard_has_a_path_of_its_own() {
    assert!(names_clipboard("clip"));
    assert!(names_clipboard("clipboard"));
    assert!(!names_clipboard("/clip"));
}

fn moment() -> Moment {
    Moment::new(1_700_000_000, 0, 3600).unwrap()
}

#[test]
fn clipboard_images_are_encoded() {
    let bytes: Vec<u8> = vec![1, 2, 3, 4, 250, 251, 252, 253];
    let image = ClipboardImage { width: 2, height: 1, bytes: bytes.clone() };
    assert!(image.is_encodable());
    let (spec, png) = clipboard_attachment(image, &moment()).unwrap();
    assert_eq!(spec.content_type, "image/png");
    assert_eq!(spec.file_name, Some("screenshot-2023-11-14T23:13:20+0100.png".to_string()));
    assert_eq!(spec.width, Some(2));
    assert_eq!(spec.height, Some(1));
    assert_eq!(spec.length, png.len());
    let decoded = image::load_from_memory(&png).unwrap().into_rgba8();
    assert_eq!(decoded.dimensions(), (2, 1));
    assert_eq!(decoded.into_raw(), bytes);
}

#[test]
fn images_without_points_are_refused() {
    let image = ClipboardImage { width: 0, height: 5, bytes: Vec::new() };
    assert!(image.is_encodable());
    assert!(clipboard_attachment(image, &moment()).is_none());
    let image = ClipboardImage { width: 5, height: 0, bytes: Vec::new() };
    assert!(clipboard_attachment(image, &moment()).is_none());
    let image = ClipboardImage { width: 2, height: 2, bytes: vec![0; 15] };
    assert!(image.is_encodable());
    assert!(clipboard_attachment(image, &moment()).is_none());
    let image = ClipboardImage { width: usize::MAX, height: 1, bytes: Vec::new() };
    assert!(image.is_encodable());
    assert!(clipboard_attachment(image, &moment()).is_none());
    let image = ClipboardImage { width: 1, height: 1, bytes: vec![0; 5] };
    assert!(!image.is_encodable());
}

#[test]
fn screenshots_are_described() {
    let (spec, bytes) = screenshot_attachment(3, 4, vec![9, 9], "now");
    assert_eq!(spec.file_name, Some("screenshot-now.png".to_string()));
    assert_eq!((spec.width, spec.height, spec.length), (Some(3), Some(4), 2));
    assert_eq!(bytes, vec![9, 9]);
}

#[test]
fn moments_are_those_of_the_calendar() {
    assert!(Moment::new(FIRST_SECOND, 0, 0).is_some());
    assert!(Moment::new(FIRST_SECOND - 1, 0, 0).is_none());
    assert!(Moment::new(LAST_SECOND, 0, 0).is_some());
    assert!(Moment::new(LAST_SECOND + 1, 0, 0).is_none());
    for secs in [
        FIRST_SECOND - 1,
        FIRST_SECOND,
        FIRST_SECOND + 59,
        -61,
        -60,
        -2,
        -1,
        0,
        1,
        58,
        59,
        60,
        LAST_SECOND,
        LAST_SECOND + 1,
    ] {
        for nanos in [0, 999_999_999, 1_000_000_000, 1_999_999_999, 2_000_000_000] {
            let theirs = chrono::Utc.timestamp_opt(secs, nanos).single();
            assert_eq!(Moment::new(secs, nanos, 0).is_some(), theirs.is_some());
        }
    }
    assert!(Moment::new(0, 0, 86_399).is_some());
    assert!(Moment::new(0, 0, 86_400).is_none());
    assert!(Moment::new(0, 0, -86_400).is_none());
}

#[test]
fn the_first_and_last_moments_are_told() {
    for (secs, offset, expected) in [
        (FIRST_SECOND, 0, "screenshot--262143-01-01T00:00:00+0000.png"),
        (LAST_SECOND, 0, "screenshot-+262142-12-31T23:59:59+0000.png"),
        (0, -7200, "screenshot-1969-12-31T22:00:00-0200.png"),
    ] {
        let at = Moment::new(secs, 0, offset).unwrap();
        let image = ClipboardImage { width: 1, height: 1, bytes: vec![0; 4] };
        let (spec, _) = clipboard_attachment(image, &at).unwrap();
        assert_eq!(spec.file_name, Some(expected.to_string()));
    }
    for (secs, offset) in [(FIRST_SECOND, -86_399), (LAST_SECOND, 86_399)] {
        let at = Moment::new(secs, 0, offset).unwrap();
        let image = ClipboardImage { width: 1, height: 1, bytes: vec![0; 4] };
        assert!(clipboard_attachment(image, &at).is_some());
    }
}

#[test]
fn files_are_described_by_their_names() {
    let (spec, bytes) = file_attachment("/tmp/photo.PNG", vec![1, 2, 3]);
    assert_eq!(spec.content_type, "image/png");
    assert_eq!(spec.file_name, Some("photo.PNG".to_string()));
    assert_eq!(spec.length, 3);
    assert_eq!((spec.width, spec.height), (None, None));
    assert_eq!(bytes, vec![1, 2, 3]);
    let (spec, _) = file_attachment("notes.txt", Vec::new());
    assert_eq!(spec.content_type, "text/plain");
    let (spec, _) = file_attachment("dir/.bashrc", Vec::new());
    assert_eq!(spec.content_type, "");
    assert_eq!(spec.file_name, Some(".bashrc".to_string()));
    let (spec, _) = file_attachment("a.unknown-extension", Vec::new());
    assert_eq!(spec.content_type, "");
    let (spec, _) = file_attachment("dir.png/plain", Vec::new());
    assert_eq!(spec.content_type, "");
    assert_eq!(spec.file_name, Some("plain".to_string()));
    let (spec, _) = file_attachment("/", Vec::new());
    assert_eq!(spec.file_name, None);
    let (spec, _) = file_attachment("/tmp/screenshot-2023-11-14T23:13:20+0100.png", Vec::new());
    assert_eq!(spec.content_type, "image/png");
    assert_eq!(spec.file_name, Some("screenshot-2023-11-14T23:13:20+0100.png".to_string()));
    for path in ["a/b.png/", "a/b.png//", "a/b.png/.", "a/b.png/.//./"] {
        let (spec, _) = file_attachment(path, Vec::new());
        assert_eq!(spec.file_name, Some("b.png".to_string()));
        assert_eq!(spec.content_type, "image/png");
    }
    for path in ["", ".", "./", "..", "a/..", "a/../", "/."] {
        let (spec, _) = file_attachment(path, Vec::new());
        assert_eq!(spec.file_name, None);
        assert_eq!(spec.content_type, "");
    }
    let (spec, _) = file_attachment("...", Vec::new());
    assert_eq!(spec.file_name, Some("...".to_string()));
    let (spec, _) = file_attachment("..hidden.tar.gz", Vec::new());
    assert_eq!(spec.content_type, "application/gzip");
}

#[test]
fn paths_with_backslashes_are_read_as_some_machine_reads_them() {
    let (spec, _) = file_attachment("dir\\photo.png", Vec::new());
    let name = spec.file_name.unwrap();
    assert!(name == "dir\\photo.png" || name == "photo.png");
    assert_eq!(spec.content_type, "image/png");
}

#[test]
fn what_was_found_is_attached_in_order() {
    let paths: Vec<String> =
        ["/a.txt", "clip", "/gone.png", "/b.png", "clipboard", "clip2", "/c"]
            .iter()
            .map(|path| path.to_string())
            .collect();
    let image = |width, height, len| Fetched::Image(ClipboardImage {
        width,
        height,
        bytes: vec![7; len],
    });
    let fetched = vec![
        Fetched::File(vec![1]),
        image(1, 1, 4),
        Fetched::Missing,
        Fetched::File(vec![2, 3]),
        image(2, 2, 3),
        Fetched::File(vec![9]),
        image(1, 1, 4),
    ];
    let items = attachments_of(&paths, fetched, &moment());
    assert_eq!(items.len(), 3);
    assert_eq!(items[0].0.file_name, Some("a.txt".to_string()));
    assert_eq!(items[0].0.content_type, "text/plain");
    assert_eq!(items[0].1, vec![1]);
    assert_eq!(items[1].0.content_type, "image/png");
    assert_eq!(items[1].0.width, Some(1));
    assert_eq!(items[2].0.file_name, Some("b.png".to_string()));
    assert_eq!(items[2].1, vec![2, 3]);
    assert!(attachments_of(&Vec::new(), Vec::new(), &moment()).is_empty());
}

#[test]
fn given_types_are_passed_on() {
    let (spec, bytes) = named_attachment(Some("a/b".to_string()), None, vec![7]);
    assert_eq!(spec.content_type, "a/b");
    assert_eq!(spec.file_name, None);
    assert_eq!(spec.length, 1);
    assert_eq!(bytes, vec![7]);
    let (spec, _) = named_attachment(None, Some("n".to_string()), Vec::new());
    assert_eq!(spec.content_type, "");
    assert_eq!(spec.file_name, Some("n".to_string()));
}

#[test]
fn a_message_is_taken_out_of_the_box() {
    let mut app = app(" hi @Alice file://clip ");
    let channel = group(vec![member(10, "Alice")]);
    let outgoing = app.try_send_input(1, &vec![(11, 22)], &channel, &message()).unwrap();
    assert_eq!(outgoing.channel_id, GROUP);
    assert_eq!(outgoing.text, "hi \u{fffc}");
    assert_eq!(outgoing.body_ranges, vec![mention(3, 10)]);
    assert_eq!(outgoing.paths, vec!["clip".to_string()]);
    assert!(outgoing.quotes);
    assert_eq!(outgoing.edited, None);
    assert!(app.input.is_empty());
    assert_eq!(outgoing.store(), Store::New(GROUP));
}

#[test]
fn an_edit_quotes_nothing() {
    let mut app = app("better");
    app.editing = Some(MessageId::new(GROUP, 100));
    let outgoing = app.send_input(1, &Vec::new(), &group(Vec::new()), &message());
    assert_eq!(outgoing.text, "better");
    assert!(!outgoing.quotes);
    assert_eq!(outgoing.edited, Some(100));
    assert_eq!(app.editing, None);
    assert_eq!(outgoing.store(), Store::Edit(MessageId::new(GROUP, 100)));
}

#[test]
fn nothing_is_quoted_without_a_selected_message() {
    let mut app = app("x");
    assert!(!app.send_input(1, &Vec::new(), &group(Vec::new()), &None).quotes);
    app.messages.insert(GROUP, MessageList { items: vec![100], selected: None });
    assert!(!app.send_input(1, &Vec::new(), &group(Vec::new()), &message()).quotes);
}

#[test]
fn messages_that_are_too_long_stay() {
    let long = "x".repeat(65536);
    let mut app = app("");
    app.input.data = long.clone();
    let channel = group(vec![member(10, "Alice")]);
    assert!(app.try_send_input(1, &Vec::new(), &channel, &None).is_none());
    assert_eq!(app.input.data, long);
}

#[test]
fn sent_messages_are_listed() {
    let mut app = app("");
    let effects = app.finish_sending(1, None, 300);
    assert!(matches!(
        effects[..],
        [Effect::ResetMessageSelection, Effect::ResetUnreadMessages, Effect::BubbleUpChannel(1)]
    ));
    let list = app.messages.get(GROUP).unwrap();
    assert_eq!(list.items, vec![100, 200, 300]);
    assert_eq!(list.selected, Some(0));
    app.finish_sending(0, Some(100), 400);
    assert_eq!(app.messages.get(GROUP).unwrap().items, vec![100, 200, 300]);
    assert!(app.messages.get(ChannelId::User(3)).is_none());
}
