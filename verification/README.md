# clock_it

The rules of Clock-It, a class attendance service: lecturers keep modules
and schedule classes (single or recurring), open attendance sessions that
students join by scanning a QR code, and follow attendance statistics.

`src/` is a library verified with Verus. Each public function carries a
contract over mathematical models (`Seq`, `int`, spec functions), and the
properties that relate several functions are proved lemmas:

- `numbers`, `text`: decimal formatting and parsing, trimming, searching,
  splitting and ordering of text.
- `dates`: calendar dates as day numbers and times as seconds; `chrono`
  parses and formats them behind small trusted wrappers.
- `auth`, `module_rules`, `enrollment`, `classes`, `sessions`: the checks on
  every request, the requests built from forms, and the answers given.
- `records`: the writes a scan and a session start make, with the tables
  modelled as sequences of rows (one attendance row per student and class,
  at most one open session per class).
- `class_views`, `display`, `calendar`, `stats`: what the pages show.
- `qr`: greyscale conversion of camera frames and decoding with `rqrr`.
- `server_config`, `user_context`: settings and the signed-in user.

`app/` is the server process around it: environment, SQLite store (`sqlx`),
a small HTTP front answering the service functions in JSON (`serde`), and
the figures kept in floating point. `tests/` exercises the library on concrete values.
