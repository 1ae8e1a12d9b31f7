# Sauron

A macOS screen activity logger: it takes a screenshot of each display on a
timer during active hours, has a local Ollama model describe it (falling back
to OCR and a text model), and once a day turns the descriptions into a
Markdown log that it saves and, when configured, mails through Resend.

## Layout

- `src/` is the library, written in Verus. Its functions carry contracts that
  Verus proves. A few calls sit behind small trusted items whose contracts
  Verus takes on faith: the home directory (`dirs`), the local time
  (`chrono`) and whether a file exists, of which only what holds of every
  answer is stated; Base64 encoding (`base64`), stated as RFC 4648; Unicode
  lower-casing (`str::to_lowercase`), named; and `String::push`:
  - `text` — characters, white space trimming, splitting, decimal numbers and
    UTF-8 byte positions, each against a specification of what the standard
    library does;
  - `paths` — joining paths and expanding `~/`;
  - `config` — the settings, their defaults, active hours and the files in
    the configuration directory;
  - `capture` — which displays to capture and where each screenshot goes;
  - `processor`, `summarizer` — the Ollama requests and how their answers are
    read;
  - `email` — the daily email and HTML escaping;
  - `daemon` — the decisions of the capture and daily summary loops, with the
    laws of the summary schedule;
  - `launchd` — the launch agent's property list;
  - `clock`, `cli`, `error` — the clock, the subcommands and the error type.
- `app/` is the program around it: the command line, the configuration file,
  SQLite, HTTP, running `screencapture` and the OCR helper, and the daemon's
  loops.
- `tests/` runs the library on concrete values.
