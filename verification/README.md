# services

The service layer of a home media server, written in Verus: file-name parsing,
library scans and matching, ingest and refresh rules, job payloads, access control,
discovery rows, catalog reads and session tokens. Verus checks every function in
`src/` against its contract (a few small helpers, such as getters of opaque parts,
state little or nothing). The calls into outside crates (`jiff`, `jiff-cron`,
`sanitize-filename`, `sha2`, `url`, `uuid`, `regex-syntax`, and `str::to_lowercase`)
stand behind small trusted wrappers. Where a few lines can say what such a call
returns, its contract says it; where the answer takes the crate's own algorithm (a
cron schedule's next fire, a hash, a sanitised name), the contract ties the result to
a named function of the call's arguments, plus the short facts the crate documents.

Layout:

- `src/` — the verified library. Text and parsing: `chars`, `unicode`, `title`,
  `patterns`, `parse`, `paths`, `fmt`. Scans and ingest: `media`, `scanner`, `matcher`,
  `dedup`, `subtitles`, `enrich`, `enrichment`, `artwork`, `jobs`, `fetch`, `debounce`,
  `schedule`. Catalog and discovery: `catalog`, `cards`, `collections`, `discovery`,
  `hub_rows`, `sort`. Services and access: `acl`, `library_service`, `job_service`,
  `services`, `tokens`.
- `tests/` — tests of the library on concrete values.
- `app/` — what needs I/O, serde or signing: job payloads as JSON, signed session
  tokens, queued job records with fresh ids and the current time, confidence scores,
  and the scan loop, which walks a library's roots and runs the probes as the library's
  `gather_walks`, `probes_to_start`, `progress_due` and `scan_report` decide.

The services of the library are written as steps: each takes the values read from the
stores (libraries, users, catalog, jobs, metadata provider) and gives the answer, the
refusal, or the rows and jobs to write, in order (for instance `create_fetch`,
`ingest_episode_actions`, `refresh_movie_actions`, `refresh_seasons_actions`,
`relink_series_jobs`, `refresh_rotation`, `queue_scan`, `title_cards`). The stores themselves, and the
loop that reads them, runs a step and writes its result, are not part of this crate;
of the loops, only the scan's is here, in `app/`.
