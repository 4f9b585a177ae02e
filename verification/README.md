# cowardcoin

The rules of CowardCoin, a Discord game: coins of several rarities appear in
a channel, members claim them, count them, give them to each other, invest
them in the CowardCoin Bank™, stake them on coin tricks, and pay them into
the arena for experience.

The library in `src/` is written in Verus and checked by it: its public
operations carry contracts that Verus proves, and the two calls it trusts
without proof (a random pick from `rand`, and std's lower-casing) are marked
as such.  Some small private helpers carry no contract of their own.

- `server.rs` — the records (kept in strictly increasing order of member
  identifier), finding and adding members.
- `commands.rs`, `games.rs` — claiming and counting coins, the leaderboard,
  the market, tricks, investments, gifts and the arena.
- `communication.rs` — reading a chat message into a `Command`.
- `dispatch.rs` — running a command: the reply, what to do with the coin's
  announcement, and work that waits for the records to be saved.
- `readiness.rs` — whether a command can be run on the current records.
- `coin.rs`, `rarity.rs`, `coin_type.rs`, `user.rs`, `text.rs`, `ledger.rs`,
  `schedule.rs`, `flavor.rs`, `messages.rs`, `responses.rs` — the pieces.
- `laws.rs` — properties that span several operations.

Randomness comes from `rand`; the game's floating-point formulas (experience
caps, trick levels and allowances, market moves) are supplied by the
application through `Measure`.

`app/` is the bot itself: the Discord connection (serenity), the clock, the
JSON data file, the coin timer and the formulas.  `tests/` exercises the
library.
