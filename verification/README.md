# bongo_chat

The chat companion of the BongoCat desktop pet: an LLM chat window with
tools (weather, train tickets, scheduled shutdown, Weibo hot search) and a
daily brief.

- `src/` is the library, written in Verus and verified: the `.env`
  configuration format, the history window, the request bodies and the
  order of rounds when the model calls tools, the decoding of a streamed
  reply, the tools offered to the model and the planning of their
  commands, the system prompt, the placement of the chat window and the
  avatar checks. The public functions state their results over spec
  functions, except `now_timestamp`, whose result is the clock's reading;
  what comes from serde_json and `from_utf8_lossy` is named, not
  described. The laws that relate functions (configuration round trip,
  chunking of the stream, history bounds, window placement, the
  daily-brief marker, offered tools against dispatched ones) are proof
  functions.
- `app/` is the Tauri side: files, windows, the clock's date, HTTP,
  child processes, the JSON of requests and tool definitions, and the
  serde copies of the library's types.
- `tests/` runs the library with the real outside crates.
