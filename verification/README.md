# asset_cache

Finds, lists and extracts the assets that a game client keeps in its cache directory.

`src/` is the library, verified by Verus. It holds the shared state and every decision:
which files belong to a category, which bytes of a file are the asset, where it goes, what
the status line says, and what is done next. It does not touch the file system.

- `text`: texts as sequences of characters
- `messages`: the messages shown to the user
- `session`: the shared state
- `tasks`: counting and progress
- `headers`: categories, headers, and cutting a file at its header
- `listing`: listing a directory, and searching the list
- `list_run`: a listing from its start to its end
- `extraction`: extracting a file, and what larger extractions have in common
- `directory_run`: the extraction of the listed files of a directory
- `cache_run`: the extraction of the whole cache
- `removal`: deleting the contents of a directory
- `assets`: swapping and copying assets
- `directories`: the cache directory and the temporary directory

A task that works through many files is a machine: it takes up what came of the last thing
to be done, changes the state, and tells what is to be done next. `app/` does it.

`app/` is ordinary Rust around the library: files, threads, dialogs and the texts of the
messages. `tests/` runs the library on concrete values.
