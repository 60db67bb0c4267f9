# setboy

A terminal chat client for language models.  You type a question, send it
with Alt+Enter, and the answer (and any reasoning the model shows) streams
into the conversation.  Tab and Shift+Tab move the focus between messages,
Esc goes back to the input box, the page keys and the mouse wheel scroll, and
Ctrl+C twice in a row quits.

## Layout

- `src/` is the library, verified with Verus:
  - `model`: the conversation, the state of the reply stream, the focus and
    the status texts (`model::Model`); `model::model`, `model::message`,
    `model::chat` and `model::notification` hold the later form of the chat
    state, with numbered messages and short-lived notices.
  - `text`, `wrapped_text`: word wrapping, line splitting and joining.
  - `cli`: the chat view's layout (heights, scrolling, where each box goes),
    the look of message boxes, the status line; `cli::app` decides what a
    key, a wheel turn, a stream event or a tick does; `cli::widgets` and
    `widgets` plan the drawing of the chat windows.
  - `llm`: request messages, stream events, and what each stream item means.
  - `app_data`: the settings and the app's directories.
- `app/` is the program around it: the terminal, the event loop, drawing with
  ratatui, the model client, and the settings file.
- `tests/` runs the library on concrete cases.
