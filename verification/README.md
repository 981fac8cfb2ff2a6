# thornychat_ui

The decisions of a Matrix chat client's user interface, verified with Verus:
what each message does to the state, what is asked of the client in turn, and
what every screen shows.

* `src/` is the library. Executable functions carry contracts over the spec
  functions beside them; the `law_` proof functions state what holds across
  functions. Numbers that the windowing toolkit has as floats are carried as
  their bit patterns, and times as nanoseconds.
  * `slash`, `spellcheck`, `spellcheck_highlight`, `links`, `tweets`, `steam`,
    `twemoji`, `sizes`, `color`, `mime`, `local_time`: text and formats.
  * `text`, `floats`, `sorting`, `string_map`, `word_set`: what the rest is
    built of.
  * `screens/`: the state, the transitions and the contents of each screen.
  * `state`, `update/`, `subscriptions`: the application as a whole. An update
    returns the tasks to be run.
  * `media`, `previews`, `stickers`, `events`, `commands`, `theme_config`,
    `spellcheck_config`, `synthetic_input`: what the screens share.
* `app/` runs the tasks, draws the screens, and reads and writes files. What a
  platform has to supply is the `Platform` trait in `app/platform.rs`.
* `tests/` holds the tests.
