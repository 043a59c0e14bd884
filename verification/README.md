# ndrpc

A Discord Rich Presence client. It reads `config.yaml` and preset files from
`./presets/` and shows one preset, a rotation of presets, or system figures
as the user's Discord activity.

- `src/` is the verified library (Verus): the preset and configuration data,
  the activity each preset becomes (as written, or trimmed with empty texts
  and unusable buttons left out, at most two buttons), the rotation of
  presets, the reconnect policy after failed updates, the startup plan a
  configuration asks for, file paths and error messages, and the terminal
  rows of the client's messages. Laws are stated as proof functions next to
  the functions they speak of.
- `app/` is the program around it: reading files and YAML, the terminal,
  the Discord connection, the system figures, and the loops that join them.
- `tests/` runs the library on concrete values.
