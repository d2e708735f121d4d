# url_uploader

A chat bot that fetches the file behind a URL and uploads it to the chat.

- `src/` is the library: the decisions of the bot, verified with Verus. What it
  trusts of other crates stands in `src/outside.rs` and `src/tables.rs`.
- `app/` is the program: it signs in, downloads and uploads, and does what the
  library decides on. The figures of an upload's progress (the percentage, the
  speed, the time left and the filled cells of the bar) are measured there, in
  floating point, and are not verified; the library writes the message that they
  stand in.
- `tests/` runs the library on examples.

A user sends `URL`, or `URL | name`, to the bot, or `/upload URL | name` in a group.
A chat has one upload at a time. Files of up to two gigabytes are taken, and a name
gets the extension of the file where it lacks it.

The program reads `API_ID`, `API_HASH`, `BOT_TOKEN` and `PORT` from its environment.
