# deepseek_desktop

The verified core of DeepSeek Desktop, a launcher and lifecycle manager for a
local DeepSeek Harness checkout.

`src/` is the library, written in Verus and proved against its contracts:

- `models`, `validation`: the configuration, its validation, and the
  redaction of secrets in log text;
- `text`, `path`: the string and path operations the rest is stated over;
- `command`, `versions`, `inspect`, `progress`: commands, tool detection,
  the status of the checkout and the reports shown to the user;
- `git`, `lmstudio`, `process`: the default branch search, the LM Studio
  request and response, and the recognition of a recorded service;
- `prepare`, `start`, `stop`, `update`, `upstream`: the long operations
  and the check for upstream changes as state machines that decide each
  next step from what the last one reported.

`app/` holds the desktop shell: the Tauri commands, the application state,
and the work on the machine (processes, files, sockets) that the state
machines ask for. `tests/` runs the library on concrete values.
