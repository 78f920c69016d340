//! What holds of the keys that commands are bound to.

use vstd::prelude::*;

#[allow(unused_imports)]
use crate::app::AppView;
#[allow(unused_imports)]
use crate::command::{Command, WindowMode};
#[allow(unused_imports)]
use crate::dispatch::{bound_command, first_bound, modes};
#[allow(unused_imports)]
use crate::keys::{combination, KeyCode, KeyCombination, KeyEvent, KeyEventKind};

verus! {

/// A press of a key that is no character stands for that key, with the modifiers that are down.
pub proof fn other_keys_stand_for_themselves(event: KeyEvent)
    requires
        event.kind == KeyEventKind::Press,
        event.code !is Char,
    ensures
        combination(event) == Some(
            KeyCombination {
                first: event.code,
                second: None,
                third: None,
                modifiers: event.modifiers,
            },
        ),
{
}

/// A press of a character stands for that character with the modifiers that are down, but that a line
/// break stands for the enter key, that a small letter with the shift key stands for its capital, and
/// that a capital stands for itself with the shift key.
pub proof fn characters_stand_for_themselves(c: char, modifiers: u8)
    ensures
        ({
            let event = KeyEvent { code: KeyCode::Char(c), modifiers, kind: KeyEventKind::Press };
            let keys = combination(event)->0;
            &&& combination(event) is Some
            &&& keys.second is None && keys.third is None
            &&& c == '\r' || c == '\n' ==> keys.first == KeyCode::Enter && keys.modifiers
                == modifiers
            &&& 'a' <= c <= 'z' && modifiers & 1 == 1 ==> keys.first == KeyCode::Char(
                (c as u8 - 32) as char,
            ) && keys.modifiers == modifiers
            &&& 'A' <= c <= 'Z' && modifiers & 1 != 1 ==> keys.first == KeyCode::Char(c)
                && keys.modifiers == modifiers | 1
            &&& c != '\r' && c != '\n' && !('a' <= c <= 'z' && modifiers & 1 == 1) && !('A' <= c
                <= 'Z' && modifiers & 1 != 1) ==> keys.first == KeyCode::Char(c) && keys.modifiers
                == modifiers
        }),
{
}

/// Whether a terminal reports a capital, or a small letter with the shift key, or both, it stands for
/// the same combination.
pub proof fn capitals_are_letters_with_shift(c: char, modifiers: u8)
    requires
        'a' <= c <= 'z',
        modifiers & 1 == 0,
    ensures
        ({
            let small = KeyCode::Char(c);
            let capital = KeyCode::Char((c as u8 - 32) as char);
            let kind = KeyEventKind::Press;
            let plain = combination(KeyEvent { code: capital, modifiers, kind });
            &&& plain == combination(KeyEvent { code: capital, modifiers: modifiers | 1, kind })
            &&& plain == combination(KeyEvent { code: small, modifiers: modifiers | 1, kind })
            &&& plain != combination(KeyEvent { code: small, modifiers, kind })
        }),
{
    assert((modifiers | 1) & 1 == 1 && modifiers | 1 != modifiers) by (bit_vector)
        requires
            modifiers & 1 == 0,
    ;
    assert('A' <= (c as u8 - 32) as char <= 'Z');
}

proof fn lemma_two_modes(
    bindings: Map<(WindowMode, KeyCombination), Command>,
    a: WindowMode,
    b: WindowMode,
    keys: KeyCombination,
)
    ensures
        first_bound(bindings, seq![a, b], keys) == (if bindings.contains_key((a, keys)) {
            Some(bindings[(a, keys)])
        } else if bindings.contains_key((b, keys)) {
            Some(bindings[(b, keys)])
        } else {
            None
        }),
{
    reveal_with_fuel(first_bound, 3);
    assert(seq![a, b].drop_first() =~= seq![b]);
    assert(seq![b].drop_first() =~= Seq::<WindowMode>::empty());
}

proof fn lemma_three_modes(
    bindings: Map<(WindowMode, KeyCombination), Command>,
    a: WindowMode,
    b: WindowMode,
    c: WindowMode,
    keys: KeyCombination,
)
    ensures
        first_bound(bindings, seq![a, b, c], keys) == (if bindings.contains_key((a, keys)) {
            Some(bindings[(a, keys)])
        } else if bindings.contains_key((b, keys)) {
            Some(bindings[(b, keys)])
        } else if bindings.contains_key((c, keys)) {
            Some(bindings[(c, keys)])
        } else {
            None
        }),
{
    lemma_two_modes(bindings, b, c, keys);
    assert(seq![a, b, c].drop_first() =~= seq![b, c]);
}

proof fn lemma_modes(app: AppView, keys: KeyCombination)
    ensures
        ({
            let found = first_bound(app.bindings, modes(app), keys);
            let anywhere = (WindowMode::Anywhere, keys);
            let help = (WindowMode::Help, keys);
            let modal = (WindowMode::ChannelModal, keys);
            let multiline = (WindowMode::Multiline, keys);
            let selected = (WindowMode::MessageSelected, keys);
            let normal = (WindowMode::Normal, keys);
            let in_box = !app.is_help && !app.modal_shown;
            if app.bindings.contains_key(anywhere) {
                found == Some(app.bindings[anywhere])
            } else if app.is_help && app.bindings.contains_key(help) {
                found == Some(app.bindings[help])
            } else if !app.is_help && app.modal_shown && app.bindings.contains_key(modal) {
                found == Some(app.bindings[modal])
            } else if in_box && app.is_multiline_input && app.bindings.contains_key(multiline) {
                found == Some(app.bindings[multiline])
            } else if in_box && !app.is_multiline_input && app.input.data.len() == 0
                && app.bindings.contains_key(selected) {
                found == Some(app.bindings[selected])
            } else if in_box && app.bindings.contains_key(normal) {
                found == Some(app.bindings[normal])
            } else {
                found is None
            }
        }),
{
    let anywhere = WindowMode::Anywhere;
    lemma_two_modes(app.bindings, anywhere, WindowMode::Help, keys);
    lemma_two_modes(app.bindings, anywhere, WindowMode::ChannelModal, keys);
    lemma_two_modes(app.bindings, anywhere, WindowMode::Normal, keys);
    lemma_three_modes(app.bindings, anywhere, WindowMode::Multiline, WindowMode::Normal, keys);
    lemma_three_modes(app.bindings, anywhere, WindowMode::MessageSelected, WindowMode::Normal, keys);
}

/// A key that is bound for every part of the program means that wherever it is pressed.
pub proof fn bound_anywhere(app: AppView, event: KeyEvent, keys: KeyCombination)
    requires
        combination(event) == Some(keys),
        app.bindings.contains_key((WindowMode::Anywhere, keys)),
    ensures
        bound_command(app, event) == Some(app.bindings[(WindowMode::Anywhere, keys)]),
{
    lemma_modes(app, keys);
}

/// While the help is shown, a key means what it is bound to there, and otherwise nothing at all is
/// done.
pub proof fn bound_in_help(app: AppView, event: KeyEvent, keys: KeyCombination)
    requires
        combination(event) == Some(keys),
        !app.bindings.contains_key((WindowMode::Anywhere, keys)),
        app.is_help,
    ensures
        app.bindings.contains_key((WindowMode::Help, keys)) ==> bound_command(app, event) == Some(
            app.bindings[(WindowMode::Help, keys)],
        ),
        !app.bindings.contains_key((WindowMode::Help, keys)) ==> bound_command(app, event) == Some(
            Command::NoOp,
        ),
{
    lemma_modes(app, keys);
}

/// While the channel popup is shown, a key means what it is bound to there, and no other binding
/// counts.
pub proof fn bound_in_channel_popup(app: AppView, event: KeyEvent, keys: KeyCombination)
    requires
        combination(event) == Some(keys),
        !app.bindings.contains_key((WindowMode::Anywhere, keys)),
        !app.is_help,
        app.modal_shown,
    ensures
        app.bindings.contains_key((WindowMode::ChannelModal, keys)) ==> bound_command(app, event)
            == Some(app.bindings[(WindowMode::ChannelModal, keys)]),
        !app.bindings.contains_key((WindowMode::ChannelModal, keys)) ==> bound_command(app, event)
            is None,
{
    lemma_modes(app, keys);
}

/// In the message box a key means what it is bound to for several lines, while those are typed. It
/// means what it is bound to for the selected message, while nothing is typed on one line. These go
/// before what it is bound to in the message box in general.
pub proof fn bound_in_message_box(app: AppView, event: KeyEvent, keys: KeyCombination)
    requires
        combination(event) == Some(keys),
        !app.bindings.contains_key((WindowMode::Anywhere, keys)),
        !app.is_help,
        !app.modal_shown,
    ensures
        app.is_multiline_input && app.bindings.contains_key((WindowMode::Multiline, keys))
            ==> bound_command(app, event) == Some(app.bindings[(WindowMode::Multiline, keys)]),
        !app.is_multiline_input && app.input.data.len() == 0 && app.bindings.contains_key(
            (WindowMode::MessageSelected, keys),
        ) ==> bound_command(app, event) == Some(app.bindings[(WindowMode::MessageSelected, keys)]),
        !(app.is_multiline_input && app.bindings.contains_key((WindowMode::Multiline, keys))) && !(
        !app.is_multiline_input && app.input.data.len() == 0 && app.bindings.contains_key(
            (WindowMode::MessageSelected, keys),
        )) ==> {
            &&& app.bindings.contains_key((WindowMode::Normal, keys)) ==> bound_command(app, event)
                == Some(app.bindings[(WindowMode::Normal, keys)])
            &&& !app.bindings.contains_key((WindowMode::Normal, keys)) ==> bound_command(app, event)
                is None
        },
{
    lemma_modes(app, keys);
}

/// A key that is bound in the message box in general, and nowhere else, means that whenever neither
/// the help nor the channel popup is shown, whatever is typed and on however many lines.
pub proof fn general_bindings_hold_for_every_text(
    app: AppView,
    event: KeyEvent,
    keys: KeyCombination,
)
    requires
        combination(event) == Some(keys),
        !app.is_help,
        !app.modal_shown,
        forall|mode: WindowMode| #[trigger]
            app.bindings.contains_key((mode, keys)) <==> mode == WindowMode::Normal,
    ensures
        bound_command(app, event) == Some(app.bindings[(WindowMode::Normal, keys)]),
{
    lemma_modes(app, keys);
}

/// A key that is bound in none of the modes is no command, but while the help is shown.
pub proof fn unbound_keys_are_no_commands(app: AppView, event: KeyEvent, keys: KeyCombination)
    requires
        combination(event) == Some(keys),
        forall|mode: WindowMode| !#[trigger] app.bindings.contains_key((mode, keys)),
    ensures
        bound_command(app, event) == (if app.is_help {
            Some(Command::NoOp)
        } else {
            None
        }),
{
    lemma_modes(app, keys);
}

/// Only the bindings, what is shown and whether something is typed tell what a key means: all else
/// of the state may be another.
pub proof fn other_state_does_not_change_commands(a: AppView, b: AppView, event: KeyEvent)
    requires
        a.bindings == b.bindings,
        a.is_help == b.is_help,
        a.modal_shown == b.modal_shown,
        a.is_multiline_input == b.is_multiline_input,
        a.input.data.len() == 0 <==> b.input.data.len() == 0,
    ensures
        bound_command(a, event) == bound_command(b, event),
{
    if let Some(keys) = combination(event) {
        lemma_modes(a, keys);
        lemma_modes(b, keys);
    }
}

/// Only a press stands for a combination of keys, and only a press can be bound.
pub proof fn repeats_and_releases_mean_nothing(app: AppView, event: KeyEvent)
    requires
        event.kind != KeyEventKind::Press,
    ensures
        combination(event) is None,
        bound_command(app, event) is None,
{
}

} // verus!
