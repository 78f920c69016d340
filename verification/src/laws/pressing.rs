//! What holds of the keys that are pressed.

use vstd::prelude::*;

#[allow(unused_imports)]
use crate::app::{AppView, MentionCompletionStyle, MentionPopupView};
#[allow(unused_imports)]
use crate::chat::{Context, Member};
#[allow(unused_imports)]
use crate::command::{Command, DirectionVertical, MoveAmountVisual, Widget};
#[allow(unused_imports)]
use crate::completion::roster;
#[allow(unused_imports)]
use crate::dispatch::{
    bound_command, can_complete, can_handle, command_step, cycle_kept, key_step, plain_step,
    unbound_step, AppError,
};
#[allow(unused_imports)]
use crate::effect::{Edit, Effect, OpenTarget};
#[allow(unused_imports)]
use crate::input::InputView;
#[allow(unused_imports)]
use crate::keys::{KeyCode, KeyEvent};
#[allow(unused_imports)]
use crate::popup::{popup_accepted, popup_down, popup_up, popup_updated};
#[allow(unused_imports)]
use crate::text::{byte_len, is_prefix, lowercase};

verus! {

/// The keys that the mention popup takes.
pub open spec fn is_popup_key(code: KeyCode) -> bool {
    code is Esc || code is Enter || code is Tab || code is Up || code is Down || code is Char || code
        is Backspace
}

/// `app` as it is for a key with the code `code` while no popup takes it: the mention popup is closed,
/// and the cycle is over unless the key is tab.
pub open spec fn without_popup(app: AppView, code: KeyCode) -> AppView {
    AppView {
        popup: None,
        cycle: if code is Tab {
            app.cycle
        } else {
            None
        },
        ..app
    }
}

/// While the mention popup is shown, escape closes it, enter and tab accept the selected entry, and up
/// and down go to its neighbours, whatever the keys are bound to. All but tab end a cycle, and nothing
/// is asked for.
pub proof fn popup_takes_its_keys(app: AppView, event: KeyEvent, context: Context)
    requires
        app.popup is Some,
    ensures
        ({
            let ended = AppView { cycle: None, ..app };
            let step = key_step(app, event, context);
            &&& event.code is Esc ==> step.app == AppView { popup: None, cycle: None, ..app }
            &&& event.code is Enter ==> step.app == popup_accepted(ended)
            &&& event.code is Tab ==> step.app == popup_accepted(app)
            &&& event.code is Up ==> step.app == popup_up(ended)
            &&& event.code is Down ==> step.app == popup_down(ended)
            &&& is_popup_key(event.code) ==> can_handle(app, event, context) && step.result == Ok::<
                Seq<Effect>,
                AppError,
            >(Seq::empty())
        }),
{
}

/// While the mention popup is shown, a character is typed into the active box and the character before
/// the cursor is deleted there, whatever the keys are bound to, and the popup is brought up to date.
pub proof fn popup_follows_what_is_typed(app: AppView, event: KeyEvent, context: Context)
    requires
        app.popup is Some,
        app.active().cursor <= app.active().data.len(),
    ensures
        event.code matches KeyCode::Char(c) ==> {
            let n = app.active().cursor as int;
            let typed = InputView {
                data: app.active().data.take(n) + seq![c] + app.active().data.skip(n),
                cursor: app.active().cursor + 1,
            };
            let now = if app.modal_shown {
                AppView { modal_input: typed, cycle: None, ..app }
            } else {
                AppView { input: typed, cycle: None, ..app }
            };
            key_step(app, event, context).app == popup_updated(now, context.channel)
        },
        event.code is Backspace ==> {
            let n = app.active().cursor as int;
            let deleted = if n == 0 {
                app.active()
            } else {
                InputView { data: app.active().data.remove(n - 1), cursor: (n - 1) as nat }
            };
            let now = if app.modal_shown {
                AppView { modal_input: deleted, cycle: None, ..app }
            } else {
                AppView { input: deleted, cycle: None, ..app }
            };
            key_step(app, event, context).app == popup_updated(now, context.channel)
        },
{
    let n = app.active().cursor as int;
    let kept = AppView { cycle: None, ..app };
    if let KeyCode::Char(c) = event.code {
        crate::laws::boxes::typing(app.active(), c);
        assert(kept.active() == app.active());
    }
    crate::laws::boxes::deleting(app.active());
}

/// A key behind which the mention popup is still open leaves those in it who can be mentioned in the
/// selected channel and whose names start with the whole text between the `@` and the cursor, whatever
/// the case of the letters, and nobody else.
pub proof fn open_popup_offers_names_that_start_so(
    app: AppView,
    event: KeyEvent,
    context: Context,
    popup: MentionPopupView,
    members: Seq<Member>,
    k: int,
    m: Member,
)
    requires
        app.popup == Some(popup),
        event.code is Char || event.code is Backspace,
        key_step(app, event, context).app.popup is Some,
        roster(app, context.channel) == Some(members),
        ({
            let input = key_step(app, event, context).app.input;
            &&& 0 <= k <= input.cursor <= input.data.len()
            &&& byte_len(input.data.take(k)) == popup.at_byte_pos + 1
        }),
    ensures
        ({
            let now = key_step(app, event, context).app;
            let typed = now.input.data.subrange(k, now.input.cursor as int);
            &&& now.popup->0.matches.contains(m) <==> members.contains(m) && is_prefix(
                lowercase(typed),
                lowercase(m.name@),
            )
            &&& now.popup->0.at_byte_pos == popup.at_byte_pos
        }),
{
    let ended = AppView { cycle: None, ..app };
    let changed = match event.code {
        KeyCode::Char(c) => ended.with_active(ended.active().typed(c)),
        _ => ended.with_active(ended.active().erased()),
    };
    let now = key_step(app, event, context).app;
    assert(now == popup_updated(changed, context.channel));
    assert(now.input == changed.input);
    assert(roster(changed, context.channel) == roster(app, context.channel));
    crate::laws::popups::popup_offers_names_that_start_so(
        changed,
        context.channel,
        popup,
        members,
        k,
    );
}

/// A key that means nothing to the mention popup closes it and is handled as if it had not been shown.
pub proof fn other_keys_close_the_popup(app: AppView, event: KeyEvent, context: Context)
    requires
        app.popup is Some,
        !is_popup_key(event.code),
    ensures
        key_step(app, event, context) == key_step(AppView { popup: None, ..app }, event, context),
        can_handle(app, event, context) <==> can_handle(
            AppView { popup: None, ..app },
            event,
            context,
        ),
{
}

/// A key other than tab is handled as if no cycle had been left.
pub proof fn other_keys_forget_the_cycle(app: AppView, event: KeyEvent, context: Context)
    requires
        event.code !is Tab,
    ensures
        key_step(app, event, context) == key_step(AppView { cycle: None, ..app }, event, context),
        can_handle(app, event, context) <==> can_handle(
            AppView { cycle: None, ..app },
            event,
            context,
        ),
{
}

/// While the mention popup is not shown, a key that is bound to a command carries it out.
pub proof fn bound_keys_carry_commands_out(
    app: AppView,
    event: KeyEvent,
    context: Context,
    command: Command,
)
    requires
        app.popup is None,
        bound_command(app, event) == Some(command),
    ensures
        ({
            let step = command_step(without_popup(app, event.code), command, context);
            &&& key_step(app, event, context).app == step.app
            &&& key_step(app, event, context).result == Ok::<Seq<Effect>, AppError>(step.effects)
        }),
{
    let closed = AppView { popup: None, ..cycle_kept(app, event.code) };
    assert(closed == without_popup(app, event.code));
    crate::laws::bindings::other_state_does_not_change_commands(app, closed, event);
    assert(key_step(app, event, context) == plain_step(closed, event, context));
}

proof fn lemma_unbound(app: AppView, event: KeyEvent, context: Context)
    requires
        app.popup is None,
        bound_command(app, event) is None,
    ensures
        key_step(app, event, context) == unbound_step(
            without_popup(app, event.code),
            event.code,
            context,
        ),
{
    let closed = AppView { popup: None, ..cycle_kept(app, event.code) };
    assert(closed == without_popup(app, event.code));
    crate::laws::bindings::other_state_does_not_change_commands(app, closed, event);
    assert(key_step(app, event, context) == plain_step(closed, event, context));
}

/// A character that is bound to nothing is typed into the active box, a carriage return as a line
/// break. Nothing else changes but that a cycle ends, and the popup opens behind an `@` where mentions
/// are offered in it.
pub proof fn unbound_characters_are_typed(
    app: AppView,
    event: KeyEvent,
    context: Context,
    c: char,
)
    requires
        app.popup is None,
        bound_command(app, event) is None,
        event.code == KeyCode::Char(c),
        app.active().cursor <= app.active().data.len(),
    ensures
        key_step(app, event, context).result == Ok::<Seq<Effect>, AppError>(Seq::empty()),
        c != '@' || app.mention_completion != MentionCompletionStyle::Menu ==> {
            let n = app.active().cursor as int;
            let put = if c == '\r' {
                '\n'
            } else {
                c
            };
            let typed = InputView {
                data: app.active().data.take(n) + seq![put] + app.active().data.skip(n),
                cursor: app.active().cursor + 1,
            };
            &&& app.modal_shown ==> key_step(app, event, context).app == AppView {
                modal_input: typed,
                cycle: None,
                ..app
            }
            &&& !app.modal_shown ==> key_step(app, event, context).app == AppView {
                input: typed,
                cycle: None,
                ..app
            }
        },
{
    lemma_unbound(app, event, context);
    let closed = without_popup(app, event.code);
    crate::laws::boxes::typing(
        app.active(),
        if c == '\r' {
            '\n'
        } else {
            c
        },
    );
    assert(closed.active() == app.active());
    assert(closed == AppView { cycle: None, ..app });
}

/// An `@` that is typed into the message box, where mentions are offered in the popup, opens it at that
/// `@` with everybody who can be mentioned in the selected channel, the first of them selected. Where
/// nobody can be, it is typed like any other character.
pub proof fn at_opens_the_popup(app: AppView, event: KeyEvent, context: Context)
    requires
        app.popup is None,
        bound_command(app, event) is None,
        event.code == KeyCode::Char('@'),
        app.mention_completion == MentionCompletionStyle::Menu,
        !app.modal_shown,
        app.input.cursor <= app.input.data.len(),
        byte_len(app.input.data.take(app.input.cursor as int)) + 1 <= usize::MAX,
    ensures
        ({
            let n = app.input.cursor as int;
            let typed = InputView {
                data: app.input.data.take(n) + seq!['@'] + app.input.data.skip(n),
                cursor: app.input.cursor + 1,
            };
            let members = roster(app, context.channel);
            key_step(app, event, context).app == AppView {
                input: typed,
                cycle: None,
                popup: if members is Some && members->0.len() > 0 {
                    Some(
                        MentionPopupView {
                            at_byte_pos: byte_len(app.input.data.take(n)) as usize,
                            matches: members->0,
                            selected: Some(0),
                        },
                    )
                } else {
                    None
                },
                ..app
            }
        }),
        can_handle(app, event, context),
{
    lemma_unbound(app, event, context);
    let n = app.input.cursor as int;
    let closed = without_popup(app, event.code);
    crate::laws::boxes::typing(app.input, '@');
    assert(closed == AppView { cycle: None, ..app });
    let typed = AppView { input: app.input.typed('@'), ..closed };
    assert(typed.input.before() =~= app.input.data.take(n).push('@'));
    crate::text::lemma_byte_len_push(app.input.data.take(n), '@');
    crate::text::lemma_byte_len_one('@');
    assert(roster(typed, context.channel) == roster(app, context.channel));
    crate::laws::popups::popup_opens_with_everybody(typed, context.channel);
    lemma_refused(app, event, context);
}

/// The enter key, bound to nothing, starts a line while several are typed. Otherwise it sends what is
/// typed to the selected channel, and where nothing is typed it opens something of the selected
/// message. Only the end of a cycle changes the state.
pub proof fn enter_sends_or_opens(app: AppView, event: KeyEvent, context: Context)
    requires
        app.popup is None,
        bound_command(app, event) is None,
        event.code is Enter,
        !app.modal_shown,
    ensures
        ({
            let step = key_step(app, event, context);
            let result = step.result;
            &&& step.app == AppView { cycle: None, ..app }
            &&& result is Ok
            &&& app.is_multiline_input ==> result->Ok_0 == seq![Effect::Edit(Edit::NewLine)]
            &&& !app.is_multiline_input && app.input.data.len() > 0 && app.selected is Some
                ==> result->Ok_0 == seq![Effect::SendInput(app.selected->0)]
            &&& !app.is_multiline_input && app.input.data.len() > 0 && app.selected is None
                ==> result->Ok_0 == Seq::<Effect>::empty()
            &&& !app.is_multiline_input && app.input.data.len() == 0 && app.selected_message_id()
                is Some && context.message is Some ==> result->Ok_0 == seq![
                Effect::Open(OpenTarget::UrlOrFile),
            ]
            &&& !app.is_multiline_input && app.input.data.len() == 0 && (app.selected_message_id()
                is None || context.message is None) ==> result->Ok_0 == Seq::<Effect>::empty()
        }),
{
    lemma_unbound(app, event, context);
    let closed = without_popup(app, event.code);
    assert(closed == AppView { cycle: None, ..app });
    assert(closed.selected_message_id() == app.selected_message_id());
}

/// The enter key, bound to nothing, in the channel popup closes it and selects the channel under its
/// cursor, at its first place in the list, and swaps the drafts of the channel that was selected and
/// that channel. It fails, and just closes the popup, if the channel is not in the list. It does
/// nothing where there is no channel under the cursor.
pub proof fn enter_chooses_the_channel(app: AppView, event: KeyEvent, context: Context)
    requires
        app.popup is None,
        bound_command(app, event) is None,
        event.code is Enter,
        app.modal_shown,
    ensures
        ({
            let step = key_step(app, event, context);
            &&& app.modal_channel is None ==> step.app == (AppView { cycle: None, ..app })
                && step.result == Ok::<Seq<Effect>, AppError>(Seq::empty())
            &&& app.modal_channel matches Some(id) ==> {
                &&& !app.channels.contains(id) ==> step.app == (AppView {
                    modal_shown: false,
                    cycle: None,
                    ..app
                }) && step.result == Err::<Seq<Effect>, AppError>(AppError::ChannelDisappeared)
                &&& forall|i: usize|
                    i < app.channels.len() && #[trigger] app.channels[i as int] == id && (forall|
                        j: int,
                    |
                        0 <= j < i ==> app.channels[j] != id) ==> step.app == (AppView {
                        modal_shown: false,
                        cycle: None,
                        selected: Some(i),
                        ..app
                    }) && step.result == Ok::<Seq<Effect>, AppError>(
                        seq![
                            Effect::SwapChannelDraft(
                                if app.selected is Some {
                                    Some(app.channels[app.selected->0 as int])
                                } else {
                                    None
                                },
                                Some(id),
                            ),
                        ],
                    )
            }
        }),
{
    lemma_unbound(app, event, context);
    let closed = without_popup(app, event.code);
    assert(closed == AppView { cycle: None, ..app });
    if let Some(id) = app.modal_channel {
        app.channels.index_of_first_ensures(id);
        assert forall|i: usize|
            i < app.channels.len() && #[trigger] app.channels[i as int] == id && (forall|j: int|
                0 <= j < i ==> app.channels[j] != id) implies app.channels.contains(id)
            && app.channels.index_of_first(id)->0 == i by {
            assert(app.channels.contains(app.channels[i as int]));
        }
    }
}

/// The escape key, bound to nothing, leaves an edit and empties the active box. Where nothing is edited
/// it ends the selection of a message.
pub proof fn escape_leaves_edit_or_selection(app: AppView, event: KeyEvent, context: Context)
    requires
        app.popup is None,
        bound_command(app, event) is None,
        event.code is Esc,
    ensures
        ({
            let step = key_step(app, event, context);
            let empty = InputView { data: Seq::empty(), cursor: 0 };
            &&& app.editing is None ==> step.app == (AppView { cycle: None, ..app }) && step.result
                == Ok::<Seq<Effect>, AppError>(seq![Effect::ResetMessageSelection])
            &&& app.editing is Some ==> step.result == Ok::<Seq<Effect>, AppError>(Seq::empty())
            &&& app.editing is Some && !app.modal_shown ==> step.app == AppView {
                editing: None,
                input: empty,
                cycle: None,
                ..app
            }
            &&& app.editing is Some && app.modal_shown ==> step.app == AppView {
                editing: None,
                modal_input: empty,
                cycle: None,
                ..app
            }
        }),
{
    lemma_unbound(app, event, context);
    assert(without_popup(app, event.code) == AppView { cycle: None, ..app });
}

/// Other keys that are bound to nothing do nothing but end a cycle, and tab does not even that.
pub proof fn other_unbound_keys_do_nothing(app: AppView, event: KeyEvent, context: Context)
    requires
        app.popup is None,
        bound_command(app, event) is None,
        event.code !is Char,
        event.code !is Enter,
        event.code !is Esc,
    ensures
        key_step(app, event, context).result == Ok::<Seq<Effect>, AppError>(Seq::empty()),
        event.code is Tab ==> key_step(app, event, context).app == app,
        event.code !is Tab ==> key_step(app, event, context).app == (AppView { cycle: None, ..app }),
{
    lemma_unbound(app, event, context);
}

proof fn lemma_refused(app: AppView, event: KeyEvent, context: Context)
    requires
        app.popup is None,
    ensures
        can_handle(app, event, context) <==> crate::dispatch::can_handle_plain(
            without_popup(app, event.code),
            event,
            context,
        ),
        bound_command(without_popup(app, event.code), event) == bound_command(app, event),
{
    let closed = AppView { popup: None, ..cycle_kept(app, event.code) };
    assert(closed == without_popup(app, event.code));
    crate::laws::bindings::other_state_does_not_change_commands(app, closed, event);
}

/// While the mention popup is not shown, a key is refused only if it completes a mention whose name
/// cannot be cut, scrolls the help further than lines are counted, or opens the mention popup before
/// the first character of the message box, from the channel popup.
pub proof fn few_keys_are_refused(app: AppView, event: KeyEvent, context: Context)
    requires
        app.popup is None,
    ensures
        bound_command(app, event) == Some(Command::React(None)) ==> (can_handle(app, event, context)
            <==> can_complete(without_popup(app, event.code), context)),
        bound_command(app, event) == Some(
            Command::Scroll(Widget::Help, DirectionVertical::Down, MoveAmountVisual::Entry),
        ) ==> (can_handle(app, event, context) <==> app.help_scroll.0 < 65535),
        bound_command(app, event) is Some && bound_command(app, event) != Some(
            Command::React(None),
        ) && bound_command(app, event) != Some(
            Command::Scroll(Widget::Help, DirectionVertical::Down, MoveAmountVisual::Entry),
        ) ==> can_handle(app, event, context),
        bound_command(app, event) is None ==> (can_handle(app, event, context) <==> !(event.code
            == KeyCode::Char('@') && app.mention_completion == MentionCompletionStyle::Menu
            && app.modal_shown && byte_len(app.input.data.take(app.input.cursor as int)) == 0)),
{
    lemma_refused(app, event, context);
}

} // verus!
