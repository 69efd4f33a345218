# gdcbot

The logic of a Discord bot that checks SourceMod game data against freshly
downloaded game builds and announces new AlliedModders plugin posts, written
in Verus with its contracts proved.

- `src/` is the verified library: the table of supported games, the version
  poller's update rule, the plugin-feed tracker, the DepotDownloader and gdc
  command lines, the embeds the bot sends, and the text helpers they rest on.
- `app/` is the bot itself: Discord (serenity), HTTP (reqwest), XML (quick-xml),
  directory walks (walkdir) and process spawning, calling the library for
  every decision.
- `tests/` runs the library on concrete values.
