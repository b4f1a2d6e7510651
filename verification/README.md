# lalafell_bot

The decisions of the Lalafell Discord bot, as a library verified with Verus, and the bot
that runs them.

- `src/` holds what the bot decides: how each command reads its arguments and what it
  answers (`commands/`), the automatic-reply listener and its rate limit (`listeners/`), the
  pacing of timed tasks (`tasks.rs`), the role bookkeeping of character tags
  (`commands/tag.rs`), the timed-out role's permissions (`commands/timeout.rs`), the command
  names (`commands/registry.rs`), the code the `BotCommand` derive writes and the handler
  lines read from serenity's `EventHandler` with syn (`derive.rs`), and
  the text handling they share (`text.rs`). Each public function has a contract, and the
  properties that span several calls are proof functions beside them.
- `app/` connects to Discord (serenity), the database (diesel), the command line
  (structopt), the derive's token input (syn) and the file system, and hands the library
  plain values.
- `tests/` runs the library on concrete values.
