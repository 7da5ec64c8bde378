# stakpak_tui

The state of a terminal chat client, and what every event makes of it: typing and pasting, slash
commands, tool calls and their approval, an interactive shell, popups, scrolling and selecting. The
library in `src/` is verified with Verus. It does no input or output of its own: a handler takes the
state, the event and what is known of the world, changes the state, and puts what is to be sent or
done into an `Outbox`.

- `update.rs` dispatches an event; `layers.rs` decides which popup takes it first.
- `event_loop.rs` holds the decisions of the loop around it.
- `app.rs`, `types.rs`, `events.rs`, `message.rs` and `models.rs` hold the state and what goes in
  and out.
- `input.rs`, `submit.rs`, `completion.rs`, `images.rs` and `file_search.rs` serve the input.
- `tool.rs`, `tool_result.rs`, `dialog.rs`, `approval_bar.rs` and `ask_user.rs` serve tool calls.
- `shell.rs` and `shell_screen.rs` serve the shell.
- `popups.rs`, `model_switcher.rs`, `file_changes.rs`, `message_actions.rs`, `navigation.rs` and
  `text_selection.rs` serve the popups, the keys and the mouse.
- `file_diff.rs`, `banner.rs`, `dropdown.rs` and `helper_block.rs` lay out what is drawn.
- `text.rs`, `textarea.rs`, `style.rs`, `geometry.rs`, `json.rs`, `arguments.rs` and `collections.rs` are the ground under it.

Public proof functions whose names start with `law_` state what holds across functions.

`app/` runs the client: it reads the terminal, walks the working directory, touches the disk, draws,
and does what the library asks for. What belongs to the programs around the client stands behind its
trait `Host`.
