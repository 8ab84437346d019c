# Matrix Service

An authenticated HTTP service through which workflows post notifications to
Matrix rooms, encrypted end to end by default, with retries that are safe to
repeat.

- `src/` is the library, verified with Verus: what a request comes to, the steps
  of a delivery, of setup and of the migrations, message formats, image
  attachments, request hashes and record keys, errors. The modules named
  `*_laws` state what holds of every run, whatever Matrix, the network and the
  database do.
- `app/` is the program around it: Rocket endpoints, Postgres, the Matrix SDK and
  image downloads. It carries out the actions that the library asks for and hands
  back what came of them.
- `tests/` run the library with the crates that it calls.
- `extras/migrations/` holds the SQL of the newest migration. The program reads
  the migrations from a `migrations/` directory at startup, one file for each
  version.
