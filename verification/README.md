# Auto splitter settings editor

The editor shows the settings that an auto splitter offers as rows, lets the
user change them, and keeps the rows in step with the running auto splitter.

`src/` is the verified library:

- `settings`: the widgets that an auto splitter offers, and the stored values.
- `rows`: the rows, and how they follow from widgets and stored values.
- `values`: how the widgets of a row read and change what it shows.
- `edits`: what a change in the rows writes to the stored settings.
- `state`: the state of the whole editor: opening, syncing, taking over edits.
- `sync`: what the editor does on an animation frame.
- `tooltip`: when the tooltip of a row opens and closes.
- `dialog`: the extensions that a file dialog offers, and its preparation.
- `words`, `paths`: runs of characters, and the parts of a file path.
- `listing`: lists that are described by the views of their items.
- `laws`: what holds of edits and syncs taken together.

What the library takes on trust is stated in `words` (`char::is_whitespace`),
`paths` (`Path::file_name`, `Path::parent`) and `dialog` (the builder methods of
`native_dialog::FileDialog`).

`app/` holds the druid widgets, the access to the auto splitter runtime of
livesplit-core and the call that shows the file dialog. It needs a
livesplit-core whose `auto_splitting` module has a `settings` module, which the
release that `Cargo.toml` names does not have yet, and the GTK libraries that
druid links to. `src/` uses neither of the two.
