# unipac

`unipac` drives package-manager plugins: it asks each configured plugin program to
list, search, describe, install, remove or update packages, and shows the replies.

- `src/` is the verified library (Verus):
  - `text` — string helpers (split, join, filtering) with exact specifications;
  - `table` — `tabled` builders and tables, with the padding they apply;
  - `package` — a package as an ordered map of fields (`indexmap`), and its tables;
  - `plugin` — plugin messages, requests, and how a reply is gathered from the plugin's
    channel, message by message;
  - `protocol` — the line protocol on a plugin's output, and run failures;
  - `commands` — what each command asks and shows, plugin selection, and the steps of
    `install` and `update` (from state and event to next state and action);
  - `args`, `config`, `cli` — the command line and configuration as plain values;
  - `shared`, `dummy` — plugins loaded as shared libraries and the C interface.
- `app/` runs the program: command-line parsing, configuration files, threads,
  processes, progress bars, prompts and printing; it performs the actions that the
  library's command steps return and hands back what happened. Started under the name `unipac-cli`,
  the program is the older front end, which loads plugins as shared libraries.
- `tests/` exercises the library on concrete values.
