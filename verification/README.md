# chat_input

The input handling of a terminal chat client, verified with Verus.

Keys come in as events and go out as effects. `App::on_key` takes a key event with what is known of
the selected channel and message, changes the state, and returns what the rest of the program is to
do. Nothing here draws, stores or sends anything.

## Layout

- `src/app.rs`: the state and its invariant
- `src/dispatch.rs`: from keys to commands, and what the commands do
- `src/actions.rs`: copying, editing, deleting, opening and reacting to the selected message
- `src/completion.rs`, `src/mentions.rs`, `src/popup.rs`: completing the names of members
- `src/body.rs`: turning mentions into placeholders
- `src/attachments.rs`, `src/send.rs`: what is attached and what is sent
- `src/input.rs`, `src/text.rs`: a text box, and text measured in bytes
- `src/chat.rs`, `src/lists.rs`, `src/entries.rs`, `src/command.rs`, `src/keys.rs`, `src/effect.rs`: the
  values in between
- `src/laws.rs`: what holds of all of it
- `app/`: the program around it, with the clipboard, the files and the network
- `tests/`: tests on concrete values

Each contract speaks of the state as `AppView`, a plain value, and says what the next state is as a
function of it. What the library has from other crates and from std stands behind a few functions
marked `external_body` and one `assume_specification`, in `src/text.rs`,
`src/keys.rs` and `src/attachments.rs`.
