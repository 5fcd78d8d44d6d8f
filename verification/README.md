# orai

A command-line client for OpenRouter AI models: one-shot prompts, a chat on
standard input, and a terminal UI with markdown rendering, with native tools
(read, write, shell, web_fetch), server tools (web search, date) and file
attachments.

The library in `src/` is verified with Verus; `app/` holds the program around
it (command line, HTTP, files, processes, the terminal).

- `text` – strings as character sequences: trimming, lines, UTF-8 byte
  lengths and cuts, decimal numbers.
- `json` – JSON values and their mathematical model; parsing and printing go
  through serde_json.
- `wire` – reading tool calls and their streamed fragments from JSON.
- `stream` – server-sent-event lines and the assembly of streamed tool calls.
- `tools`, `native` – tool definitions, confirmation rules and the answers of
  the native tools.
- `client` – request bodies, reading replies, the retry without tools and the
  tool loop's decisions.
- `attachment` – attachment kinds, framing and the `+path` references in a
  message.
- `markdown` – markdown rendered as styled lines.
- `tui`, `session` – the terminal UI's state and keys, and the prompt and chat
  sessions' decisions.
