# codex_logic

The decision logic of several Codex command-line tools, written in Verus with
its behaviour stated in contracts and proved.

- `src/` is the verified library:
  - `auto_continue`: the `AUTO_MODE_NEXT=continue|stop` directive parser and
    the auto-continue prompts;
  - `base_instructions`: the throughput guidance added to base instructions;
  - `config_warnings`, `config_report`, `config_command`: deprecated and
    unknown configuration keys, and the `config layers` / `config warnings`
    reports;
  - `line_truncation`: cutting styled terminal lines to a display width;
  - `markdown_events`: the event listing of `md-events`;
  - `remote_compact`: the state machine of the remote compaction task;
  - `text`, `sorted_keys`: character-level string helpers and sorted sets of
    strings.
- `tests/` runs the library on concrete inputs.
- `app/` holds what stays outside the proofs: command-line parsing, loading
  the configuration, printing, JSON output, and the asynchronous session
  plumbing around the compaction state machine.
