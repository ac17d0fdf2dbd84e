# nwws-rs

Parsing, archiving and timeline logic for NOAA Weather Wire (NWWS) text
products, with its behaviour stated in Verus contracts and proved.

- `src/` is the library. Bulletins, NWWS-OI stanzas and PID201 streams are read
  by `wmo`, `oi`, `xml`, `stream`, `pid201` and `ingest`; their products by
  `product`, `ugc`, `vtec`, `geo` and `tags`. `api`, `summary` and `scan` report
  on them, `archive`, `runtime`, `session` and `capture` decide what is stored,
  `warning`, `timeline`, `timeline_report`, `active`, `lead_time`, `metrics` and
  `polygon` follow warnings through time, `serve` holds the rules of the HTTP
  service, and `options`, `oi_options`, `commands` and `report` those of the
  command line.
- Laws that relate several functions are public proof functions beside them;
  those of archives stand in `archive_laws` and `line_ends`.
- `app/` is the `nwws` command: files, terminal output, JSON and HTTP. The XMPP
  session of live traffic is held by an outside client, which hands the stanzas
  over on standard input, one to a line.
- `tests/` runs the library on concrete bulletins.

Times are nanoseconds since 1970 in UTC, coordinates are hundredths of a
degree, and measurements are kept as the decimal literals they were written as.
