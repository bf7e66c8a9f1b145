# kokoro

The decision logic of a desktop companion that talks through a chat window and
through bot platforms (Telegram, QQ, Discord, LINE and plain webhooks), written
and proved in Verus.

- `src/` is the verified library. It reads and writes nothing: it takes what was
  read, decides, and says what is to be done.
  - `text`, `text_table`, `text_map`, `json`, `encoding`, `paths`, `error`:
    texts, tables by name, JSON values, base64 and digests, file names, errors.
  - `tags`, `reply_text`, `telegram_text`, `media`: tags in the model's
    responses, and media types.
  - `bot_config`, `bot_runtime`, `bot_reply`, `webhook`, `line`, `discord`,
    `telegram`: the bot platforms.
  - `history`, `conversation`, `context`, `memory`: conversations and settings.
  - `chat`, `chat_turn`, `cancellation`, `tool_trace`, `approval`: the turns of
    the chat.
  - `file_swap`, `avatar`, `avatar_change`, `characters`: characters and their
    files.
- `tests/` runs the library on concrete values.
- `app/` is the shell around it: files, the database, the network and the
  platforms. The engine (model, tools, speech, images, memories) is a trait
  there.

Calls into other crates stand behind a few trusted functions, each with a doc
comment that says what is claimed of the call: `encoding`, `json`, `paths`,
`approval`, `tags` and `text` hold them.

`Cargo.toml` names `takecell` only to hold it back: teloxide brings it in, and
from 0.1.2 on it asks for a newer compiler than the one this crate is built with.
