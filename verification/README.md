# osu_directer

A helper for Windows that is registered as the default browser: links to
osu! beatmaps are downloaded and opened in the osu! client, every other link
is handed to a real browser.

The decisions and the text it produces are a Verus library under `src/`,
each function with a contract that Verus proves:

- `config`: the settings, how a path setting is stored (`auto` or empty
  means "find it automatically"), and when the settings file is written.
- `utils`: beatmap ids read from an `osu!.db` listing, and order-keeping
  deduplication.
- `listing_layout`: a walk over the `osu!.db` layout that finds the string
  lengths the listing parser would read, so that one too long for its reader
  is refused before parsing.
- `links`: what to do with a link: open it in the browser, follow a
  redirect, download a set, open the downloaded file.
- `registry`: the registry values written to register the program as a
  browser, and the keys removed to unregister it.
- `cli`, `logfile`, `download`, `launch`, `text`: the run mode, log level and
  log rotation, mirror addresses, browser and osu! lookup order, trimming.

`app/` holds the program around it: command line, logging, files, HTTP,
the registry and process launching.
