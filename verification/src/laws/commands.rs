//! What holds of the commands.

use vstd::prelude::*;

#[allow(unused_imports)]
use crate::actions::{copied, deletion_effects, editing_started, reacted, reaction_effects};
#[allow(unused_imports)]
use crate::app::AppView;
#[allow(unused_imports)]
use crate::chat::Context;
#[allow(unused_imports)]
use crate::command::{
    Command, DirectionVertical, MoveAmountText, MoveAmountVisual, MoveDirection, Widget,
};
#[allow(unused_imports)]
use crate::dispatch::{
    can_command, can_complete, command_step, completion_step, react_step, reaction_step,
};
#[allow(unused_imports)]
use crate::effect::{Edit, Effect, OpenTarget};
#[allow(unused_imports)]
use crate::input::InputView;

verus! {

/// `command` can be carried out, asks for `effect` alone and changes nothing.
pub open spec fn only_asks_for(
    app: AppView,
    context: Context,
    command: Command,
    effect: Effect,
) -> bool {
    &&& can_command(app, command, context)
    &&& command_step(app, command, context).app == app
    &&& command_step(app, command, context).effects == seq![effect]
}

/// In every state the commands that move the cursor or delete text ask the text box for it, and change
/// nothing else.
pub proof fn text_commands_ask_the_box(app: AppView, context: Context)
    ensures
        only_asks_for(
            app,
            context,
            Command::MoveText(MoveDirection::Previous, MoveAmountText::Character),
            Effect::Edit(Edit::MoveLeft),
        ),
        only_asks_for(
            app,
            context,
            Command::MoveText(MoveDirection::Previous, MoveAmountText::Word),
            Effect::Edit(Edit::MoveBackWord),
        ),
        only_asks_for(
            app,
            context,
            Command::MoveText(MoveDirection::Previous, MoveAmountText::Line),
            Effect::Edit(Edit::MoveLineUp),
        ),
        only_asks_for(
            app,
            context,
            Command::MoveText(MoveDirection::Next, MoveAmountText::Word),
            Effect::Edit(Edit::MoveForwardWord),
        ),
        only_asks_for(
            app,
            context,
            Command::MoveText(MoveDirection::Next, MoveAmountText::Line),
            Effect::Edit(Edit::MoveLineDown),
        ),
        only_asks_for(app, context, Command::BeginningOfLine, Effect::Edit(Edit::MoveHome)),
        only_asks_for(app, context, Command::EndOfLine, Effect::Edit(Edit::MoveEnd)),
        only_asks_for(app, context, Command::KillLine, Effect::Edit(Edit::DeleteSuffix)),
        only_asks_for(app, context, Command::KillWord, Effect::Edit(Edit::DeleteWord)),
        only_asks_for(app, context, Command::KillWholeLine, Effect::Edit(Edit::DeleteLine)),
        only_asks_for(app, context, Command::KillBackwardLine, Effect::Edit(Edit::DeleteLine)),
        only_asks_for(
            app,
            context,
            Command::DeleteCharacter(MoveDirection::Next),
            Effect::Edit(Edit::DeleteCharacter),
        ),
{
}

/// In every state the commands for the lists, the help and the mute switch ask for that, and change
/// nothing else.
pub proof fn list_commands_ask_the_lists(app: AppView, context: Context)
    ensures
        only_asks_for(app, context, Command::Help, Effect::ToggleHelp),
        only_asks_for(
            app,
            context,
            Command::SelectMessage(MoveDirection::Previous, MoveAmountVisual::Entry),
            Effect::SelectPreviousMessage,
        ),
        only_asks_for(
            app,
            context,
            Command::SelectMessage(MoveDirection::Next, MoveAmountVisual::Entry),
            Effect::SelectNextMessage,
        ),
        only_asks_for(
            app,
            context,
            Command::SelectChannel(MoveDirection::Previous),
            Effect::SelectPreviousChannel,
        ),
        only_asks_for(
            app,
            context,
            Command::SelectChannel(MoveDirection::Next),
            Effect::SelectNextChannel,
        ),
        only_asks_for(
            app,
            context,
            Command::SelectChannelModal(MoveDirection::Previous),
            Effect::SelectPreviousInModal,
        ),
        only_asks_for(
            app,
            context,
            Command::SelectChannelModal(MoveDirection::Next),
            Effect::SelectNextInModal,
        ),
        only_asks_for(app, context, Command::ToggleMuteChannel, Effect::ToggleMuteChannel),
        only_asks_for(app, context, Command::ToggleChannelList, Effect::ToggleChannelList),
{
}

/// The commands that set a flag set that flag, leave the rest as it is and ask for nothing. The command
/// to do nothing does nothing.
pub proof fn flag_commands_set_flags(app: AppView, context: Context)
    ensures
        command_step(app, Command::Quit, context).app == (AppView { should_quit: true, ..app }),
        command_step(app, Command::Redraw, context).app == (AppView { should_clear: true, ..app }),
        command_step(app, Command::OpenEditor, context).app == (AppView {
            open_editor_requested: true,
            ..app
        }),
        command_step(app, Command::ToggleMultiline, context).app == (AppView {
            is_multiline_input: !app.is_multiline_input,
            ..app
        }),
        command_step(app, Command::NoOp, context).app == app,
        command_step(app, Command::Quit, context).effects == Seq::<Effect>::empty(),
        command_step(app, Command::Redraw, context).effects == Seq::<Effect>::empty(),
        command_step(app, Command::OpenEditor, context).effects == Seq::<Effect>::empty(),
        command_step(app, Command::ToggleMultiline, context).effects == Seq::<Effect>::empty(),
        command_step(app, Command::NoOp, context).effects == Seq::<Effect>::empty(),
{
}

/// The cursor of the active box moves over one character, unless it is at the end, and the character
/// before it is deleted, unless it is at the start. Nothing else changes and nothing is asked for.
pub proof fn active_box_is_edited(app: AppView, context: Context)
    requires
        app.active().cursor <= app.active().data.len(),
    ensures
        ({
            let right = command_step(
                app,
                Command::MoveText(MoveDirection::Next, MoveAmountText::Character),
                context,
            );
            let input = app.active();
            let moved = InputView {
                data: input.data,
                cursor: if input.cursor < input.data.len() {
                    input.cursor + 1
                } else {
                    input.cursor
                },
            };
            &&& right.effects == Seq::<Effect>::empty()
            &&& app.modal_shown ==> right.app == AppView { modal_input: moved, ..app }
            &&& !app.modal_shown ==> right.app == AppView { input: moved, ..app }
        }),
        ({
            let delete = command_step(
                app,
                Command::DeleteCharacter(MoveDirection::Previous),
                context,
            );
            let input = app.active();
            let deleted = if input.cursor == 0 {
                input
            } else {
                InputView {
                    data: input.data.remove(input.cursor - 1),
                    cursor: (input.cursor - 1) as nat,
                }
            };
            &&& delete.effects == Seq::<Effect>::empty()
            &&& app.modal_shown ==> delete.app == AppView { modal_input: deleted, ..app }
            &&& !app.modal_shown ==> delete.app == AppView { input: deleted, ..app }
        }),
{
    crate::laws::boxes::deleting(app.active());
}

/// The help is scrolled by one line, up to its start and down as far as lines are counted. Nothing
/// else changes and nothing is asked for.
pub proof fn help_is_scrolled_by_lines(app: AppView, context: Context)
    ensures
        ({
            let up = command_step(
                app,
                Command::Scroll(Widget::Help, DirectionVertical::Up, MoveAmountVisual::Entry),
                context,
            );
            &&& up.effects == Seq::<Effect>::empty()
            &&& app.help_scroll.0 == 0 ==> up.app == app
            &&& app.help_scroll.0 > 0 ==> up.app.help_scroll.0 == app.help_scroll.0 - 1
            &&& up.app.help_scroll.1 == app.help_scroll.1
            &&& up.app == AppView { help_scroll: up.app.help_scroll, ..app }
        }),
        app.help_scroll.0 < u16::MAX ==> {
            let down = command_step(
                app,
                Command::Scroll(Widget::Help, DirectionVertical::Down, MoveAmountVisual::Entry),
                context,
            );
            &&& down.effects == Seq::<Effect>::empty()
            &&& down.app.help_scroll.0 == app.help_scroll.0 + 1
            &&& down.app.help_scroll.1 == app.help_scroll.1
            &&& down.app == AppView { help_scroll: down.app.help_scroll, ..app }
        },
{
}

/// The channel popup is shown if it was not, and filled anew then. It is put away if it was shown.
pub proof fn channel_popup_is_toggled(app: AppView, context: Context)
    ensures
        ({
            let step = command_step(app, Command::ToggleChannelModal, context);
            &&& !app.modal_shown ==> step.app == (AppView { modal_shown: true, ..app })
                && step.effects == seq![Effect::ResetChannelModal]
            &&& app.modal_shown ==> step.app == (AppView { modal_shown: false, ..app })
                && step.effects == Seq::<Effect>::empty()
        }),
{
}

/// The commands for the selected message do to it what they say, and nothing where it cannot be done.
pub proof fn message_commands_act_on_the_selected_message(app: AppView, context: Context)
    ensures
        ({
            let copy = command_step(app, Command::CopyMessage, context);
            &&& copy.app == app
            &&& copied(app, context.message) matches Some(text) ==> copy.effects == seq![
                Effect::SetClipboard(text),
            ]
            &&& copied(app, context.message) is None ==> copy.effects == Seq::<Effect>::empty()
        }),
        ({
            let edit = command_step(app, Command::EditMessage, context);
            &&& editing_started(app, context) matches Some(new) ==> edit.app == new && edit.effects
                == seq![Effect::MessageBoxEnd]
            &&& editing_started(app, context) is None ==> edit.app == app && edit.effects == Seq::<
                Effect,
            >::empty()
        }),
        ({
            let delete = command_step(app, Command::DeleteMessage, context);
            &&& delete.app == app
            &&& deletion_effects(app, context) matches Some(effects) ==> delete.effects == effects
            &&& deletion_effects(app, context) is None ==> delete.effects == Seq::<Effect>::empty()
        }),
        ({
            let url = command_step(app, Command::OpenUrl, context);
            let file = command_step(app, Command::OpenFile, context);
            let selected = app.selected_message_id() is Some && context.message is Some;
            &&& url.app == app && file.app == app
            &&& selected ==> url.effects == seq![Effect::Open(OpenTarget::Url)] && file.effects
                == seq![Effect::Open(OpenTarget::File)]
            &&& !selected ==> url.effects == Seq::<Effect>::empty() && file.effects == Seq::<
                Effect,
            >::empty()
        }),
{
}

/// A given emoji is a reaction to the selected message of the selected channel, in whatever style
/// mentions are completed.
pub proof fn given_emoji_is_no_completion(
    app: AppView,
    context: Context,
    emoji: String,
)
    ensures
        ({
            let step = command_step(app, Command::React(Some(emoji)), context);
            &&& step.app == app
            &&& app.selected is None ==> step.effects == Seq::<Effect>::empty()
            &&& app.selected matches Some(idx) ==> {
                let asked = reaction_effects(app, idx, Some(emoji), context);
                &&& asked is Some ==> step.effects == asked->0
                &&& asked is None ==> step.effects == Seq::<Effect>::empty()
            }
        }),
{
    assert(react_step(app, Some(emoji), context) == reaction_step(app, Some(emoji), context));
}

/// The command to react without an emoji completes a mention, if one is typed that can be completed,
/// and asks for the bell or for nothing then. Otherwise it reacts with what is typed, if a channel is
/// selected.
pub proof fn completion_goes_before_reaction(app: AppView, context: Context)
    ensures
        ({
            let step = command_step(app, Command::React(None), context);
            let tried = completion_step(app, context);
            &&& tried.outcome.handled ==> step.app == tried.app
            &&& tried.outcome.handled && tried.outcome.bell ==> step.effects == seq![Effect::Bell]
            &&& tried.outcome.handled && !tried.outcome.bell ==> step.effects == Seq::<
                Effect,
            >::empty()
            &&& !tried.outcome.handled && tried.app.selected is None ==> step.app == tried.app
                && step.effects == Seq::<Effect>::empty()
            &&& !tried.outcome.handled && tried.app.selected is Some ==> {
                let idx = tried.app.selected->0;
                let asked = reaction_effects(tried.app, idx, None, context);
                &&& step.app == reacted(tried.app, None, context.emoji)
                &&& asked is Some ==> step.effects == asked->0
                &&& asked is None ==> step.effects == Seq::<Effect>::empty()
            }
        }),
{
    let tried = completion_step(app, context);
    if tried.outcome.handled {
        assert(react_step(app, None, context).app == tried.app);
    } else {
        assert(react_step(app, None, context) == reaction_step(tried.app, None, context));
    }
}

/// A command is refused only if it completes a mention whose name cannot be cut, or scrolls the help
/// further than lines are counted.
pub proof fn few_commands_are_refused(app: AppView, command: Command, context: Context)
    ensures
        can_command(app, Command::React(None), context) <==> can_complete(app, context),
        can_command(
            app,
            Command::Scroll(Widget::Help, DirectionVertical::Down, MoveAmountVisual::Entry),
            context,
        ) <==> app.help_scroll.0 < 65535,
        command != Command::React(None) && command != Command::Scroll(
            Widget::Help,
            DirectionVertical::Down,
            MoveAmountVisual::Entry,
        ) ==> can_command(app, command, context),
{
}

} // verus!
