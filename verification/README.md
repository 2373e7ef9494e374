# tscode

`tscode` is a workspace in the terminal: an explorer, a tabbed editor with
syntax highlighting, an integrated terminal, and a client of language servers.

The library under `src/` is verified with Verus. It holds all that is decided
and computed:

- `text`, `json`, `path`, `spans`, `search`: the values that the rest works on
- `fs_tree`: the explorer tree, its order and its operations
- `lsp`: the messages of the language server protocol, one exchange with a
  server as a machine, and what replies mean
- `shell`, `screen`, `osc`, `keys`, `mouse`, `clipboard`: the integrated terminal
- `syntax`: the colors of source text
- `ui`: what is drawn where, as steps of drawing
- `cli`, `crash`, `calendar`: the command line and crash reports

Laws that relate several functions are public proof functions beside the
functions they speak of. `app/` is the program around the library: it reads and
writes files, terminals, shells and servers, and carries out the steps that the
library asks for. `tests/` runs the library.
