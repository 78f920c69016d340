//! From key presses to commands, and from commands to what they do.

use vstd::prelude::*;

use crate::app::{App, MentionCompletionStyle};
use crate::chat::Context;
use crate::command::{
    Command, DirectionVertical, MoveAmountText, MoveAmountVisual, MoveDirection, Widget, WindowMode,
};
use crate::completion::Completion;
use crate::effect::{Edit, Effect, OpenTarget};
use crate::keys::{KeyCode, KeyCombination, KeyEvent};

#[allow(unused_imports)]
use crate::actions::{
    copied, deletion_effects, editing_started, open_effects, reacted, reaction_effects,
};
#[allow(unused_imports)]
use crate::app::AppView;
#[allow(unused_imports)]
use crate::completion::{can_complete_readline, can_cycle, cycled, readline_completed, roster};
#[allow(unused_imports)]
use crate::keys::combination;
#[allow(unused_imports)]
use crate::text::{lemma_boundary_kept, lemma_byte_len_at_least, lemma_starts_at_unique};
#[allow(unused_imports)]
use crate::popup::{
    popup_accepted, popup_can_update, popup_down, popup_opened, popup_up, popup_updated,
};

verus! {

/// Why a key could not be handled.
#[derive(Clone, Copy, PartialEq, Eq, Structural, Debug)]
pub enum AppError {
    /// The channel that was chosen in the channel popup is no longer in the list.
    ChannelDisappeared,
}

/// The modes in which a key is looked up, in this order.
pub open spec fn modes(app: AppView) -> Seq<WindowMode> {
    if app.is_help {
        seq![WindowMode::Anywhere, WindowMode::Help]
    } else if app.modal_shown {
        seq![WindowMode::Anywhere, WindowMode::ChannelModal]
    } else if app.is_multiline_input {
        seq![WindowMode::Anywhere, WindowMode::Multiline, WindowMode::Normal]
    } else if app.input.data.len() == 0 {
        seq![WindowMode::Anywhere, WindowMode::MessageSelected, WindowMode::Normal]
    } else {
        seq![WindowMode::Anywhere, WindowMode::Normal]
    }
}

/// What `keys` is bound to in the first of `modes` in which it is bound.
pub open spec fn first_bound(
    bindings: Map<(WindowMode, KeyCombination), Command>,
    modes: Seq<WindowMode>,
    keys: KeyCombination,
) -> Option<Command>
    decreases modes.len(),
{
    if modes.len() == 0 {
        None
    } else if bindings.contains_key((modes[0], keys)) {
        Some(bindings[(modes[0], keys)])
    } else {
        first_bound(bindings, modes.drop_first(), keys)
    }
}

/// The command that an event stands for. While the help is shown, a key that is not bound is
/// swallowed.
pub open spec fn bound_command(app: AppView, event: KeyEvent) -> Option<Command> {
    match combination(event) {
        None => None,
        Some(keys) => match first_bound(app.bindings, modes(app), keys) {
            Some(command) => Some(command),
            None => if app.is_help {
                Some(Command::NoOp)
            } else {
                None
            },
        },
    }
}

/// The next state, and what is asked of the rest of the program.
pub struct Step {
    pub app: AppView,
    pub effects: Seq<Effect>,
}

/// The bell, if it rings.
pub open spec fn bell_effects(bell: bool) -> Seq<Effect> {
    if bell {
        seq![Effect::Bell]
    } else {
        Seq::empty()
    }
}

/// A completion of the mention before the cursor, in the style that is set.
pub struct CompletionStep {
    pub app: AppView,
    pub outcome: Completion,
}

/// The tab key as a completion.
pub open spec fn completion_step(app: AppView, context: Context) -> CompletionStep {
    match app.mention_completion {
        MentionCompletionStyle::Readline => {
            let completed = readline_completed(app, context.channel);
            CompletionStep {
                app: AppView { input: completed.input, ..app },
                outcome: completed.outcome,
            }
        },
        MentionCompletionStyle::Cycle => {
            let step = cycled(app, context.channel);
            CompletionStep { app: step.app, outcome: step.outcome }
        },
        _ => CompletionStep { app, outcome: Completion { handled: false, bell: false } },
    }
}

/// The reaction to the selected message, if a channel is selected.
pub open spec fn reaction_step(app: AppView, reaction: Option<String>, context: Context) -> Step {
    match app.selected {
        Some(idx) => Step {
            app: reacted(app, reaction, context.emoji),
            effects: match reaction_effects(app, idx, reaction, context) {
                Some(effects) => effects,
                None => Seq::empty(),
            },
        },
        None => Step { app, effects: Seq::empty() },
    }
}

/// What a command asks for that changes nothing here.
pub open spec fn forwarded(command: Command) -> Option<Effect> {
    match command {
        Command::Help => Some(Effect::ToggleHelp),
        Command::MoveText(MoveDirection::Previous, MoveAmountText::Word) => Some(
            Effect::Edit(Edit::MoveBackWord),
        ),
        Command::MoveText(MoveDirection::Previous, MoveAmountText::Character) => Some(
            Effect::Edit(Edit::MoveLeft),
        ),
        Command::MoveText(MoveDirection::Previous, MoveAmountText::Line) => Some(
            Effect::Edit(Edit::MoveLineUp),
        ),
        Command::MoveText(MoveDirection::Next, MoveAmountText::Word) => Some(
            Effect::Edit(Edit::MoveForwardWord),
        ),
        Command::MoveText(MoveDirection::Next, MoveAmountText::Line) => Some(
            Effect::Edit(Edit::MoveLineDown),
        ),
        Command::SelectMessage(MoveDirection::Previous, MoveAmountVisual::Entry) => Some(
            Effect::SelectPreviousMessage,
        ),
        Command::SelectMessage(MoveDirection::Next, MoveAmountVisual::Entry) => Some(
            Effect::SelectNextMessage,
        ),
        Command::KillBackwardLine => Some(Effect::Edit(Edit::DeleteLine)),
        Command::KillWord => Some(Effect::Edit(Edit::DeleteWord)),
        Command::KillLine => Some(Effect::Edit(Edit::DeleteSuffix)),
        Command::KillWholeLine => Some(Effect::Edit(Edit::DeleteLine)),
        Command::BeginningOfLine => Some(Effect::Edit(Edit::MoveHome)),
        Command::EndOfLine => Some(Effect::Edit(Edit::MoveEnd)),
        Command::SelectChannel(MoveDirection::Previous) => Some(Effect::SelectPreviousChannel),
        Command::SelectChannel(MoveDirection::Next) => Some(Effect::SelectNextChannel),
        Command::SelectChannelModal(MoveDirection::Previous) => Some(Effect::SelectPreviousInModal),
        Command::SelectChannelModal(MoveDirection::Next) => Some(Effect::SelectNextInModal),
        Command::DeleteCharacter(MoveDirection::Next) => Some(Effect::Edit(Edit::DeleteCharacter)),
        Command::ToggleMuteChannel => Some(Effect::ToggleMuteChannel),
        Command::ToggleChannelList => Some(Effect::ToggleChannelList),
        _ => None,
    }
}

/// What a command does that moves the text cursor, takes a character away or sets a flag, and asks
/// for nothing.
pub open spec fn changed(app: AppView, command: Command) -> AppView {
    match command {
        Command::MoveText(MoveDirection::Next, MoveAmountText::Character) => app.with_active(
            app.active().moved_right(1),
        ),
        Command::DeleteCharacter(MoveDirection::Previous) => app.with_active(app.active().erased()),
        Command::ToggleMultiline => AppView { is_multiline_input: !app.is_multiline_input, ..app },
        Command::Quit => AppView { should_quit: true, ..app },
        Command::Redraw => AppView { should_clear: true, ..app },
        Command::OpenEditor => AppView { open_editor_requested: true, ..app },
        Command::Scroll(Widget::Help, DirectionVertical::Up, MoveAmountVisual::Entry) => AppView {
            help_scroll: if app.help_scroll.0 >= 1 {
                ((app.help_scroll.0 - 1) as u16, app.help_scroll.1)
            } else {
                app.help_scroll
            },
            ..app
        },
        Command::Scroll(Widget::Help, DirectionVertical::Down, MoveAmountVisual::Entry) => AppView {
            help_scroll: ((app.help_scroll.0 + 1) as u16, app.help_scroll.1),
            ..app
        },
        _ => app,
    }
}

/// What the command to react does. Without an emoji it completes a mention, where there is one to
/// complete.
pub open spec fn react_step(app: AppView, reaction: Option<String>, context: Context) -> Step {
    let completion = completion_step(app, context);
    if reaction is Some {
        reaction_step(app, reaction, context)
    } else if completion.outcome.handled {
        Step { app: completion.app, effects: bell_effects(completion.outcome.bell) }
    } else {
        reaction_step(completion.app, reaction, context)
    }
}

/// What a command does.
pub open spec fn command_step(app: AppView, command: Command, context: Context) -> Step {
    match command {
        Command::CopyMessage => Step {
            app,
            effects: match copied(app, context.message) {
                Some(text) => seq![Effect::SetClipboard(text)],
                None => Seq::empty(),
            },
        },
        Command::EditMessage => match editing_started(app, context) {
            Some(editing) => Step { app: editing, effects: seq![Effect::MessageBoxEnd] },
            None => Step { app, effects: Seq::empty() },
        },
        Command::DeleteMessage => Step {
            app,
            effects: match deletion_effects(app, context) {
                Some(effects) => effects,
                None => Seq::empty(),
            },
        },
        Command::ToggleChannelModal => Step {
            app: AppView { modal_shown: !app.modal_shown, ..app },
            effects: if app.modal_shown {
                Seq::empty()
            } else {
                seq![Effect::ResetChannelModal]
            },
        },
        Command::React(reaction) => react_step(app, reaction, context),
        Command::OpenUrl => Step {
            app,
            effects: open_effects(app, context.message, OpenTarget::Url),
        },
        Command::OpenFile => Step {
            app,
            effects: open_effects(app, context.message, OpenTarget::File),
        },
        _ => Step {
            app: changed(app, command),
            effects: match forwarded(command) {
                Some(effect) => seq![effect],
                None => Seq::empty(),
            },
        },
    }
}

/// The command can be carried out: the help can be scrolled that far, and the names that a
/// completion puts in can be cut where it cuts them.
pub open spec fn can_command(app: AppView, command: Command, context: Context) -> bool {
    match command {
        Command::React(None) => can_complete(app, context),
        Command::Scroll(Widget::Help, DirectionVertical::Down, MoveAmountVisual::Entry) => {
            app.help_scroll.0 < u16::MAX
        },
        _ => true,
    }
}

/// The names that a completion puts in can be cut where it cuts them.
pub open spec fn can_complete(app: AppView, context: Context) -> bool {
    match app.mention_completion {
        MentionCompletionStyle::Readline => can_complete_readline(app, context.channel),
        MentionCompletionStyle::Cycle => can_cycle(app, context.channel),
        _ => true,
    }
}

impl App {
    /// The modes in which a key is looked up, in this order.
    fn lookup_modes(&self) -> (r: Vec<WindowMode>)
        ensures
            r@ == modes(self@),
    {
        let mut r: Vec<WindowMode> = Vec::new();
        r.push(WindowMode::Anywhere);
        if self.is_help {
            r.push(WindowMode::Help);
        } else if self.select_channel.is_shown {
            r.push(WindowMode::ChannelModal);
        } else if self.is_multiline_input {
            r.push(WindowMode::Multiline);
            r.push(WindowMode::Normal);
        } else if self.input.is_empty() {
            r.push(WindowMode::MessageSelected);
            r.push(WindowMode::Normal);
        } else {
            r.push(WindowMode::Normal);
        }
        assert(r@ =~= modes(self@));
        r
    }

    /// The command that an event stands for.
    pub fn event_to_command<'r>(&'r self, event: &KeyEvent) -> (r: Option<&'r Command>)
        ensures
            r is Some <==> bound_command(self@, *event) is Some,
            r matches Some(command) ==> Some(*command) == bound_command(self@, *event),
    {
        let keys = match event.combine() {
            Some(keys) => keys,
            None => {
                return None;
            },
        };
        let all = self.lookup_modes();
        let mut i: usize = 0;
        assert(all@.skip(0) =~= all@);
        while i < all.len()
            invariant
                i <= all.len(),
                first_bound(self@.bindings, all@, keys) == first_bound(
                    self@.bindings,
                    all@.skip(i as int),
                    keys,
                ),
                all@ == modes(self@),
                combination(*event) == Some(keys),
            decreases all.len() - i,
        {
            assert(all@.skip(i as int).drop_first() =~= all@.skip(i + 1));
            if let Some(command) = self.mode_keybindings.get(all[i], keys) {
                return Some(command);
            }
            i = i + 1;
        }
        if self.is_help {
            Some(&Command::NoOp)
        } else {
            None
        }
    }

    /// Completes the mention before the cursor in the style that is set.
    fn complete_mention(&mut self, context: &Context) -> (r: Completion)
        requires
            old(self).wf(),
            can_complete(old(self)@, *context),
        ensures
            final(self).wf_but_popup(),
            old(self)@.popup is None ==> final(self).wf(),
            !r.handled ==> final(self).wf(),
            r == completion_step(old(self)@, *context).outcome,
            final(self)@ == completion_step(old(self)@, *context).app,
    {
        match self.mention_completion {
            MentionCompletionStyle::Readline => self.try_mention_completion(&context.channel),
            MentionCompletionStyle::Cycle => self.try_mention_completion_cycling(&context.channel),
            _ => Completion { handled: false, bell: false },
        }
    }

    /// Reacts to the selected message, if a channel is selected.
    fn react(&mut self, reaction: Option<String>, context: &Context) -> (r: Vec<Effect>)
        requires
            old(self).wf(),
        ensures
            final(self).wf_but_popup(),
            old(self)@.popup is None ==> final(self).wf(),
            final(self)@ == reaction_step(old(self)@, reaction, *context).app,
            r@ == reaction_step(old(self)@, reaction, *context).effects,
    {
        match self.channels.selected {
            Some(idx) => match self.add_reaction(idx, reaction, context) {
                Some(effects) => effects,
                None => Vec::new(),
            },
            None => Vec::new(),
        }
    }

    /// Completes a mention, or else reacts to the selected message.
    fn complete_or_react(&mut self, reaction: Option<String>, context: &Context) -> (r: Vec<Effect>)
        requires
            old(self).wf(),
            reaction is None ==> can_complete(old(self)@, *context),
        ensures
            final(self).wf_but_popup(),
            old(self)@.popup is None ==> final(self).wf(),
            final(self)@ == react_step(old(self)@, reaction, *context).app,
            r@ == react_step(old(self)@, reaction, *context).effects,
    {
        // Tab behind a mention completes it.
        if reaction.is_none() {
            let completion = self.complete_mention(context);
            if completion.handled {
                let mut effects: Vec<Effect> = Vec::new();
                if completion.bell {
                    effects.push(Effect::Bell);
                }
                return effects;
            }
        }
        self.react(reaction, context)
    }

    /// What a command asks for that changes nothing here.
    fn forward(command: &Command) -> (r: Option<Effect>)
        ensures
            r == forwarded(*command),
    {
        match command {
            Command::Help => Some(Effect::ToggleHelp),
            Command::MoveText(MoveDirection::Previous, MoveAmountText::Word) => Some(
                Effect::Edit(Edit::MoveBackWord),
            ),
            Command::MoveText(MoveDirection::Previous, MoveAmountText::Character) => Some(
                Effect::Edit(Edit::MoveLeft),
            ),
            Command::MoveText(MoveDirection::Previous, MoveAmountText::Line) => Some(
                Effect::Edit(Edit::MoveLineUp),
            ),
            Command::MoveText(MoveDirection::Next, MoveAmountText::Word) => Some(
                Effect::Edit(Edit::MoveForwardWord),
            ),
            Command::MoveText(MoveDirection::Next, MoveAmountText::Line) => Some(
                Effect::Edit(Edit::MoveLineDown),
            ),
            Command::SelectMessage(MoveDirection::Previous, MoveAmountVisual::Entry) => Some(
                Effect::SelectPreviousMessage,
            ),
            Command::SelectMessage(MoveDirection::Next, MoveAmountVisual::Entry) => Some(
                Effect::SelectNextMessage,
            ),
            Command::KillBackwardLine => Some(Effect::Edit(Edit::DeleteLine)),
            Command::KillWord => Some(Effect::Edit(Edit::DeleteWord)),
            Command::KillLine => Some(Effect::Edit(Edit::DeleteSuffix)),
            Command::KillWholeLine => Some(Effect::Edit(Edit::DeleteLine)),
            Command::BeginningOfLine => Some(Effect::Edit(Edit::MoveHome)),
            Command::EndOfLine => Some(Effect::Edit(Edit::MoveEnd)),
            Command::SelectChannel(MoveDirection::Previous) => Some(Effect::SelectPreviousChannel),
            Command::SelectChannel(MoveDirection::Next) => Some(Effect::SelectNextChannel),
            Command::SelectChannelModal(MoveDirection::Previous) => Some(
                Effect::SelectPreviousInModal,
            ),
            Command::SelectChannelModal(MoveDirection::Next) => Some(Effect::SelectNextInModal),
            Command::DeleteCharacter(MoveDirection::Next) => Some(
                Effect::Edit(Edit::DeleteCharacter),
            ),
            Command::ToggleMuteChannel => Some(Effect::ToggleMuteChannel),
            Command::ToggleChannelList => Some(Effect::ToggleChannelList),
            _ => None,
        }
    }

    /// Moves the text cursor, takes a character away or sets a flag.
    fn change(&mut self, command: &Command)
        requires
            old(self).wf(),
            *command == Command::Scroll(
                Widget::Help,
                DirectionVertical::Down,
                MoveAmountVisual::Entry,
            ) ==> old(self)@.help_scroll.0 < u16::MAX,
        ensures
            final(self).wf_but_popup(),
            old(self)@.popup is None ==> final(self).wf(),
            final(self)@ == changed(old(self)@, *command),
    {
        match command {
            Command::MoveText(MoveDirection::Next, MoveAmountText::Character) => {
                self.get_input().on_right();
            },
            Command::DeleteCharacter(MoveDirection::Previous) => {
                self.get_input().on_backspace();
            },
            Command::ToggleMultiline => {
                self.is_multiline_input = !self.is_multiline_input;
            },
            Command::Quit => {
                self.should_quit = true;
            },
            Command::Redraw => {
                self.should_clear = true;
            },
            Command::OpenEditor => {
                self.open_editor_requested = true;
            },
            Command::Scroll(Widget::Help, DirectionVertical::Up, MoveAmountVisual::Entry) => {
                if self.help_scroll.0 >= 1 {
                    self.help_scroll = (self.help_scroll.0 - 1, self.help_scroll.1);
                }
            },
            Command::Scroll(Widget::Help, DirectionVertical::Down, MoveAmountVisual::Entry) => {
                self.help_scroll = (self.help_scroll.0 + 1, self.help_scroll.1);
            },
            _ => {},
        }
    }

    /// Carries out a command. Returns what it asks of the rest of the program, in order.
    pub fn on_command(&mut self, command: Command, context: &Context) -> (r: Vec<Effect>)
        requires
            old(self).wf(),
            can_command(old(self)@, command, *context),
        ensures
            final(self).wf_but_popup(),
            old(self)@.popup is None ==> final(self).wf(),
            final(self)@ == command_step(old(self)@, command, *context).app,
            r@ == command_step(old(self)@, command, *context).effects,
    {
        let mut effects: Vec<Effect> = Vec::new();
        match command {
            Command::CopyMessage => {
                if let Some(text) = self.copy_selection(&context.message) {
                    effects.push(Effect::SetClipboard(text));
                }
            },
            Command::EditMessage => {
                if let Some(effect) = self.start_editing(context) {
                    effects.push(effect);
                }
            },
            Command::DeleteMessage => {
                if let Some(asked) = self.delete_selected_message(context) {
                    effects = asked;
                }
            },
            Command::ToggleChannelModal => {
                if !self.select_channel.is_shown {
                    effects.push(Effect::ResetChannelModal);
                }
                self.select_channel.is_shown = !self.select_channel.is_shown;
            },
            Command::React(reaction) => {
                effects = self.complete_or_react(reaction, context);
            },
            Command::OpenUrl => {
                effects = self.try_open_url(&context.message);
            },
            Command::OpenFile => {
                effects = self.try_open_file(&context.message);
            },
            _ => {
                self.change(&command);
                if let Some(effect) = App::forward(&command) {
                    effects.push(effect);
                }
            },
        }
        effects
    }
}

/// What a key does while the mention popup is shown. Keys that mean nothing to it are left to the
/// rest.
pub open spec fn popup_step(app: AppView, code: KeyCode, context: Context) -> Option<AppView> {
    match code {
        KeyCode::Esc => Some(AppView { popup: None, ..app }),
        KeyCode::Enter => Some(popup_accepted(app)),
        KeyCode::Tab => Some(popup_accepted(app)),
        KeyCode::Up => Some(popup_up(app)),
        KeyCode::Down => Some(popup_down(app)),
        KeyCode::Char(c) => Some(
            popup_updated(app.with_active(app.active().typed(c)), context.channel),
        ),
        KeyCode::Backspace => Some(
            popup_updated(app.with_active(app.active().erased()), context.channel),
        ),
        _ => None,
    }
}

/// The next state, and what is asked of the rest of the program or why the key failed.
pub struct KeyStep {
    pub app: AppView,
    pub result: Result<Seq<Effect>, AppError>,
}

/// What the enter key does in the channel popup: the channel under its cursor is selected, with the
/// draft that belongs to it.
pub open spec fn channel_chosen(app: AppView) -> KeyStep {
    match app.modal_channel {
        Some(id) => {
            let closed = AppView { modal_shown: false, ..app };
            if app.channels.contains(id) {
                KeyStep {
                    app: AppView {
                        selected: Some(app.channels.index_of_first(id)->0 as usize),
                        ..closed
                    },
                    result: Ok(seq![Effect::SwapChannelDraft(app.selected_channel(), Some(id))]),
                }
            } else {
                KeyStep { app: closed, result: Err(AppError::ChannelDisappeared) }
            }
        },
        None => KeyStep { app, result: Ok(Seq::empty()) },
    }
}

/// What the enter key does in the message box.
pub open spec fn entered(app: AppView, context: Context) -> Seq<Effect> {
    if app.is_multiline_input {
        seq![Effect::Edit(Edit::NewLine)]
    } else if app.input.data.len() > 0 {
        match app.selected {
            Some(idx) => seq![Effect::SendInput(idx)],
            None => Seq::empty(),
        }
    } else {
        open_effects(app, context.message, OpenTarget::UrlOrFile)
    }
}

/// What a key does that is bound to nothing.
pub open spec fn unbound_step(app: AppView, code: KeyCode, context: Context) -> KeyStep {
    match code {
        KeyCode::Char(c) => {
            let typed = app.with_active(
                app.active().typed(
                    if c == '\r' {
                        '\n'
                    } else {
                        c
                    },
                ),
            );
            KeyStep {
                app: if c == '@' && app.mention_completion == MentionCompletionStyle::Menu {
                    popup_opened(typed, context.channel)
                } else {
                    typed
                },
                result: Ok(Seq::empty()),
            }
        },
        KeyCode::Enter => if app.modal_shown {
            channel_chosen(app)
        } else {
            KeyStep { app, result: Ok(entered(app, context)) }
        },
        KeyCode::Esc => KeyStep {
            app: app.editing_reset(),
            result: Ok(
                if app.editing is Some {
                    Seq::empty()
                } else {
                    seq![Effect::ResetMessageSelection]
                },
            ),
        },
        _ => KeyStep { app, result: Ok(Seq::empty()) },
    }
}

/// What a key does while no popup takes it.
pub open spec fn plain_step(app: AppView, event: KeyEvent, context: Context) -> KeyStep {
    match bound_command(app, event) {
        Some(command) => {
            let step = command_step(app, command, context);
            KeyStep { app: step.app, result: Ok(step.effects) }
        },
        None => unbound_step(app, event.code, context),
    }
}

/// A key other than tab ends a cycle.
pub open spec fn cycle_kept(app: AppView, code: KeyCode) -> AppView {
    if code == KeyCode::Tab {
        app
    } else {
        AppView { cycle: None, ..app }
    }
}

/// What a key does.
pub open spec fn key_step(app: AppView, event: KeyEvent, context: Context) -> KeyStep {
    let kept = cycle_kept(app, event.code);
    let closed = AppView { popup: None, ..kept };
    if app.popup is Some && popup_step(kept, event.code, context) is Some {
        KeyStep { app: popup_step(kept, event.code, context)->0, result: Ok(Seq::empty()) }
    } else {
        plain_step(closed, event, context)
    }
}

/// There is a character before the cursor of the message box when the mention popup opens.
pub open spec fn can_type(app: AppView, code: KeyCode) -> bool {
    code == KeyCode::Char('@') && app.mention_completion == MentionCompletionStyle::Menu
        && app.modal_shown ==> app.input.idx() > 0
}

/// The key can be handled.
pub open spec fn can_handle(app: AppView, event: KeyEvent, context: Context) -> bool {
    let kept = cycle_kept(app, event.code);
    let closed = AppView { popup: None, ..kept };
    app.popup is Some && popup_step(kept, event.code, context) is Some || can_handle_plain(
        closed,
        event,
        context,
    )
}

/// The key can be handled while no popup takes it.
pub open spec fn can_handle_plain(app: AppView, event: KeyEvent, context: Context) -> bool {
    match bound_command(app, event) {
        Some(command) => can_command(app, command, context),
        None => can_type(app, event.code),
    }
}

/// Typing keeps the place of the mention popup.
proof fn lemma_typed_can_update(app: AppView, c: char)
    requires
        app.input.cursor <= app.input.data.len(),
        app.popup_fits(),
    ensures
        popup_can_update(app.with_active(app.active().typed(c))),
{
    if let Some(popup) = app.popup {
        let typed = app.input.typed(c);
        assert(typed.data.take(app.input.cursor as int) =~= app.input.before());
        lemma_boundary_kept(
            app.input.data,
            typed.data,
            app.input.cursor as int,
            popup.at_byte_pos + 1,
        );
    }
}

/// Deleting a character keeps the place of the mention popup, if the cursor does not pass it.
proof fn lemma_erased_can_update(app: AppView)
    requires
        app.input.cursor <= app.input.data.len(),
        app.popup_fits(),
    ensures
        popup_can_update(app.with_active(app.active().erased())),
{
    if let Some(popup) = app.popup {
        let erased = app.input.erased();
        if app.input.cursor > 0 && popup.at_byte_pos < erased.idx() {
            assert(erased.before() =~= app.input.data.take(erased.cursor as int));
            lemma_boundary_kept(
                app.input.data,
                erased.data,
                erased.cursor as int,
                popup.at_byte_pos + 1,
            );
        }
    }
}

impl App {
    /// Hands a key to the mention popup. Returns whether the key meant something to it.
    fn on_popup_key(&mut self, code: KeyCode, context: &Context) -> (r: bool)
        requires
            old(self).wf(),
        ensures
            final(self).wf(),
            r == popup_step(old(self)@, code, *context) is Some,
            final(self)@ == (if r {
                popup_step(old(self)@, code, *context)->0
            } else {
                AppView { popup: None, ..old(self)@ }
            }),
    {
        match code {
            KeyCode::Esc => {
                self.mention_popup = None;
            },
            KeyCode::Enter | KeyCode::Tab => {
                self.accept_mention_popup();
            },
            KeyCode::Up => {
                self.mention_popup_up();
            },
            KeyCode::Down => {
                self.mention_popup_down();
            },
            KeyCode::Char(c) => {
                proof {
                    lemma_typed_can_update(self@, c);
                }
                self.get_input().put_char(c);
                self.update_mention_popup(&context.channel);
            },
            KeyCode::Backspace => {
                proof {
                    lemma_erased_can_update(self@);
                }
                self.get_input().on_backspace();
                self.update_mention_popup(&context.channel);
            },
            _ => {
                self.mention_popup = None;
                return false;
            },
        }
        true
    }

    /// Selects the channel under the cursor of the channel popup.
    fn choose_channel(&mut self) -> (r: Result<Vec<Effect>, AppError>)
        requires
            old(self).wf(),
        ensures
            final(self).wf(),
            final(self)@ == channel_chosen(old(self)@).app,
            r is Ok <==> channel_chosen(old(self)@).result is Ok,
            r matches Ok(effects) ==> effects@ == channel_chosen(old(self)@).result->Ok_0,
            r matches Err(error) ==> error == channel_chosen(old(self)@).result->Err_0,
    {
        let mut effects: Vec<Effect> = Vec::new();
        if let Some(channel_id) = self.select_channel.selected_channel_id {
            self.select_channel.is_shown = false;
            let before = self.channels.selected_item();
            match self.channels.position(channel_id) {
                Some(idx) => {
                    proof {
                        self.channels.items@.index_of_first_ensures(channel_id);
                    }
                    self.channels.selected = Some(idx);
                    let now = self.channels.selected_item();
                    effects.push(Effect::SwapChannelDraft(before, now));
                },
                None => {
                    return Err(AppError::ChannelDisappeared);
                },
            }
        }
        Ok(effects)
    }

    /// What the enter key does in the message box.
    fn enter(&self, context: &Context) -> (r: Vec<Effect>)
        requires
            self.wf(),
        ensures
            r@ == entered(self@, *context),
    {
        let mut effects: Vec<Effect> = Vec::new();
        if self.is_multiline_input {
            effects.push(Effect::Edit(Edit::NewLine));
        } else if !self.input.is_empty() {
            if let Some(idx) = self.channels.selected {
                effects.push(Effect::SendInput(idx));
            }
        } else {
            effects = self.try_open_url_or_file(&context.message);
        }
        effects
    }

    /// Handles a key that is bound to nothing.
    fn on_unbound_key(&mut self, code: KeyCode, context: &Context) -> (r: Result<
        Vec<Effect>,
        AppError,
    >)
        requires
            old(self).wf(),
            old(self)@.popup is None,
            can_type(old(self)@, code),
        ensures
            final(self).wf(),
            final(self)@ == unbound_step(old(self)@, code, *context).app,
            r is Ok <==> unbound_step(old(self)@, code, *context).result is Ok,
            r matches Ok(effects) ==> effects@ == unbound_step(
                old(self)@,
                code,
                *context,
            ).result->Ok_0,
            r matches Err(error) ==> error == unbound_step(
                old(self)@,
                code,
                *context,
            ).result->Err_0,
    {
        let mut effects: Vec<Effect> = Vec::new();
        match code {
            KeyCode::Char('\r') => {
                self.get_input().put_char('\n');
            },
            KeyCode::Enter => {
                if self.select_channel.is_shown {
                    return self.choose_channel();
                }
                effects = self.enter(context);
            },
            KeyCode::Esc => {
                if !self.reset_editing() {
                    effects.push(Effect::ResetMessageSelection);
                }
            },
            KeyCode::Char(c) => {
                self.get_input().put_char(c);
                if c == '@' && self.mention_completion == MentionCompletionStyle::Menu {
                    proof {
                        lemma_byte_len_at_least(self@.input.before());
                    }
                    self.open_mention_popup(&context.channel);
                }
            },
            _ => {},
        }
        Ok(effects)
    }

    /// Handles a key while no popup takes it.
    fn on_plain_key(&mut self, key: KeyEvent, context: &Context) -> (r: Result<
        Vec<Effect>,
        AppError,
    >)
        requires
            old(self).wf(),
            old(self)@.popup is None,
            can_handle_plain(old(self)@, key, *context),
        ensures
            final(self).wf(),
            final(self)@ == plain_step(old(self)@, key, *context).app,
            r is Ok <==> plain_step(old(self)@, key, *context).result is Ok,
            r matches Ok(effects) ==> effects@ == plain_step(
                old(self)@,
                key,
                *context,
            ).result->Ok_0,
            r matches Err(error) ==> error == plain_step(old(self)@, key, *context).result->Err_0,
    {
        match self.event_to_command(&key) {
            Some(command) => {
                let command = command.clone();
                Ok(self.on_command(command, context))
            },
            None => self.on_unbound_key(key.code, context),
        }
    }

    /// Handles a key. `context` holds what is known of the selected channel, of the selected
    /// message and of what is typed. Returns what the key asks of the rest of the program, in
    /// order.
    #[verifier::rlimit(40)]
    pub fn on_key(&mut self, key: KeyEvent, context: &Context) -> (r: Result<Vec<Effect>, AppError>)
        requires
            old(self).wf(),
            can_handle(old(self)@, key, *context),
        ensures
            final(self).wf(),
            final(self)@ == key_step(old(self)@, key, *context).app,
            r is Ok <==> key_step(old(self)@, key, *context).result is Ok,
            r matches Ok(effects) ==> effects@ == key_step(
                old(self)@,
                key,
                *context,
            ).result->Ok_0,
            r matches Err(error) ==> error == key_step(old(self)@, key, *context).result->Err_0,
    {
        if key.code != KeyCode::Tab {
            self.mention_cycle = None;
        }
        if self.mention_popup.is_some() {
            if self.on_popup_key(key.code, context) {
                return Ok(Vec::new());
            }
        }
        assert(self@ == (AppView { popup: None, ..cycle_kept(old(self)@, key.code) }));
        self.on_plain_key(key, context)
    }
}

impl App {
    /// Whether the tab key can complete a mention. `cycling` tells whether a cycle is kept.
    fn can_complete_mention(&self, cycling: bool, context: &Context) -> (r: bool)
        requires
            self.wf(),
        ensures
            r == can_complete(
                (AppView {
                    cycle: if cycling {
                        self@.cycle
                    } else {
                        None
                    },
                    popup: None,
                    ..self@
                }),
                *context,
            ),
    {
        let ghost app = AppView {
            cycle: if cycling {
                self@.cycle
            } else {
                None
            },
            popup: None,
            ..self@
        };
        assert(roster(app, context.channel) == roster(self@, context.channel));
        match self.mention_completion {
            MentionCompletionStyle::Readline => self.completes(&context.channel),
            MentionCompletionStyle::Cycle => {
                if cycling && self.is_cycling() {
                    self.advances_cycle()
                } else {
                    self.starts_cycle(&context.channel)
                }
            },
            _ => true,
        }
    }

    /// Whether the key can be handled.
    fn can_handle_key(&self, key: KeyEvent, context: &Context) -> (r: bool)
        requires
            self.wf(),
        ensures
            r == can_handle(self@, key, *context),
    {
        let ghost closed = AppView { popup: None, ..cycle_kept(self@, key.code) };
        if self.mention_popup.is_some() {
            match key.code {
                KeyCode::Esc | KeyCode::Enter | KeyCode::Tab | KeyCode::Up | KeyCode::Down => {
                    return true;
                },
                KeyCode::Char(_) | KeyCode::Backspace => {
                    return true;
                },
                _ => {},
            }
        }
        assert(modes(closed) == modes(self@));
        match self.event_to_command(&key) {
            Some(Command::React(None)) => {
                self.can_complete_mention(key.code == KeyCode::Tab, context)
            },
            Some(Command::Scroll(Widget::Help, DirectionVertical::Down, MoveAmountVisual::Entry)) => {
                self.help_scroll.0 < u16::MAX
            },
            Some(_) => true,
            None => {
                proof {
                    lemma_starts_at_unique(
                        self.input.data@,
                        self.input.cursor.col as int,
                        self.input.cursor.idx as int,
                    );
                }
                key.code != KeyCode::Char('@') || self.mention_completion
                    != MentionCompletionStyle::Menu || !self.select_channel.is_shown
                    || self.input.cursor.idx > 0
            },
        }
    }

    /// Handles a key that may be one that cannot be handled: then nothing changes and there is no
    /// result.
    pub fn try_on_key(&mut self, key: KeyEvent, context: &Context) -> (r: Option<
        Result<Vec<Effect>, AppError>,
    >)
        requires
            old(self).wf(),
        ensures
            final(self).wf(),
            r is Some <==> can_handle(old(self)@, key, *context),
            r is None ==> final(self)@ == old(self)@,
            r matches Some(result) ==> {
                let step = key_step(old(self)@, key, *context);
                &&& final(self)@ == step.app
                &&& result is Ok <==> step.result is Ok
                &&& result matches Ok(effects) ==> effects@ == step.result->Ok_0
                &&& result matches Err(error) ==> error == step.result->Err_0
            },
    {
        if self.can_handle_key(key, context) {
            Some(self.on_key(key, context))
        } else {
            None
        }
    }
}

} // verus!
