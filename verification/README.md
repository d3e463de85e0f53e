# spotify_resolver

A service that answers requests for Spotify tracks. A track is looked up in a legacy
database and in a catalogue; one that neither has is queued, and a worker fetches the
queued tracks from Spotify and enters them into the catalogue.

- `src/` holds what the service decides, verified with Verus. It does no I/O: a state
  says what is to be done next, and a step takes what came of it, failures included.
  - `ids`: which id a request names, and how Spotify's objects are named.
  - `resolve`: how a request is answered.
  - `queue`: the queue of missing tracks, and how its next entry is taken.
  - `catalog`, `catalog_sql`, `save`: a track, the statements that enter it, and the
    transaction that runs them.
  - `worker`: the loop that works the queue off.
  - `schema`, `sql`, `clock`: tables, statements, and the time.
  - `tables`, `queue_model`, `catalogue_model`: what the tables hold, what the statements
    do to them and what a lookup reads out of them.
  - the `*_laws` modules: what is proved of the whole.
- `app/` is the program around it: HTTP, SQLite, Spotify's web API and timers. It carries
  out what it is asked for and hands the outcome back, an error as it came.
- `tests/` runs the library, in `tests/sqlite.rs` against SQLite itself.

The laws on the queue and on the catalogue rest on a model of SQLite: what a statement
does to the tables (`op_effect`, `stage_effect`), which entry is selected (`selects`),
what a lookup answers (`lookup_answers`), how texts are ordered (`precedes`), which row id
a new row gets (`is_next_rowid`), and that a transaction that is not committed leaves
nothing behind. Verus proves the laws from this model; that SQLite behaves like the model
it does not prove. `tests/sqlite.rs` tries it.
