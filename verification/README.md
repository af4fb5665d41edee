# shell

A small interactive shell whose command-line logic is verified with Verus.

- `src/` is the verified library: the tokenizers (`lexer`, `lx`), the parsers
  (`parser`, with the simple-command parser in `parser::parser`), the syntax
  trees and their text and outline forms, the shell environment
  (`envirement`), the command table and the decisions of each command
  (`commands`, `exec`), redirection steps (`redirection`), the login-shell lookup in
  `/etc/passwd` text (`config`), and the line
  editor's state changes (`shell_interactions`).
- `app/` is the program around it: the raw terminal, reading keys, running
  commands against the file system, signals.
- `tests/` runs the library on concrete inputs.
