# Ostinato Radio

A self-hosted, personalized radio on top of Qobuz: a theme ("chill", "folk",
"soir d'hiver", "running") becomes an endless queue blended from the
listener's favorites, new releases of favorite artists, and discoveries,
ranked by a model or by a deterministic fallback, played on a phone or on a
WiiM streamer.

## Layout

- `src/` — the library, verified with Verus: the service's data model and
  the decisions that can be stated over plain values, each with its contract:
  - `text.rs`, `json.rs` — strings and JSON documents as plain values;
  - `bindings.rs` — the calls into other crates and into std functions that
    vstd does not describe, each with the contract it is trusted to meet;
  - `state.rs`, `config.rs`, `errors.rs` — the data model, settings and errors;
  - `providers/` — Qobuz (answers, request signatures, credential scraping,
    OAuth), Last.fm queries and answers, LinkPlay commands and status, the
    ranking providers and the Workers AI prompt;
  - `engine/` — taste profile, candidate pools, ranking completion and the
    queue window;
  - `routes/`, `middleware/` — what each endpoint decides: radio sessions,
    playback and the WiiM playlist, feedback, authentication.
- `tests/` — tests of the library on concrete values.
- `app/` — the server: configuration loading, HTTP clients, the web routes,
  background tasks and everything that waits on the network or the clock,
  together with what rests on floating point (the pool ratios shown to the
  model, the release-age cutoff date).

Weights of the taste profile are kept in tenths (1.0 for a favorite artist,
+0.5 per favorite track, +0.3 per favorite album), so that they are exact.
Listening feedback moves an artist's session adjustment, also in tenths: a
skip within the first 20% of a track counts -2.0, a track heard past 80%
+1.0; the adjustment first decays by a tenth and stays within ±10.0.
