# trashy_bot

The logic of a Discord bot, written in Verus: the functions in `src/` carry contracts that
Verus proves. The few calls into other crates (random numbers, dates, uwuifier, Discord's
constants) stand behind small functions whose contracts are trusted, each documented where it
stands.

- `blackjack`, `slot`, `bank`, `account`: the casino games and the bank accounts.
- `dice`, `combo`: dice notation (`2d6+1`) and fighting game combos (`623,623P 5P`).
- `words`, `poll`, `wait`: spongebob case, choosing, uwu, polls, waiting for answers.
- `fav`, `order`, `optout`, `events`: saved messages, their tags, quotes and opt-outs.
- `moderation`, `guild_config`, `lockdown`, `reaction_roles`, `rules`: server management.
- `lastfm`, `xkcd`, `userinfo`, `remind`, `misc`: the smaller commands.
- `links`: finding a link to a Discord message in a text.
- `fav_flow`, `commands`: the steps of the commands that talk to Discord and the database in
  between (showing favs, quotes, reminders, transfers, the slot machine and more), each a
  function from what happened to what to do next.
- `dispatch`, `groups`, `bot`, `text`: reaction listeners, command groups, the gateway setup,
  the dispatch of events and interactions, and text helpers.

`app/` holds the program: it reads `config.toml`, connects to Discord and the database, logs
the gateway events as the library decides, and carries out what the library dispatches an
interaction to (`roll`, `choose`, `sponge`, `remindme`).
