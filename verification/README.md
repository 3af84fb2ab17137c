# cards

The core of Cards, a note-taking application whose notes are cards on a
canvas, grouped in boards and saved as `.cards` workspace files. The library
is written in Verus: every function carries a contract, and properties that
hold across its functions are stated as proof functions named `law_*`.

## Layout

- `src/text.rs`, `src/utf8_facts.rs`: trimming, line splitting, searching and
  replacing over characters; facts about UTF-8 boundaries.
- `src/ref_parser.rs`: `[[board / title]]` card references: finding them,
  the query being typed, completions, and their Markdown links.
- `src/checkbox.rs`: toggling `- [ ]` / `- [x]` task boxes in card text.
- `src/markdown.rs`, `src/text_document.rs`: building the styled document of
  a card from the Markdown parser's events and the highlighter's colours.
- `src/markdown_parser.rs`: parsing Markdown with pulldown-cmark and
  colouring code with syntect, behind small trusted wrappers.
- `src/boards.rs`: the board list (adding, selecting, deleting and
  renaming boards) and the invariant that one board always exists and the
  active index points at one.
- `src/board_store.rs`: each board's cards kept apart and swapped with the
  canvas on a board switch or a Ctrl+Tab cycle; card deletion with an optional
  confirmation.
- `src/workspace_modal.rs`: the open-or-create workspace dialog's steps.
- `src/workspace.rs`: the `.cards` file framing, workspace errors, file names
  of new workspaces, saved connections.
- `src/card_icon.rs`, `src/settings.rs`, `src/theme.rs`,
  `src/math_renderer.rs`: icons and their stored names, settings categories,
  the light/dark theme, the size attributes of rendered formulas.
- `app/`: a command-line front end around the library: MessagePack
  encoding and file I/O, the background save thread, theme colours.
- `tests/`: tests of the library.
