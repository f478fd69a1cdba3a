# la_taupe

A document analysis web service: clients upload a file (or name a URL), the
service runs text recognition on it under a concurrency limit and a time
limit, and answers with the analysis as JSON.

Layout:

- `src/` is the verified library (Verus): settings parsing (`config`,
  `decimal`), hints (`analysis`), the request decisions of the endpoints
  (`http::analyze`), the course of one analysis as a state machine with its
  pool-balance and single-reply laws (`http::process`), the listening address
  (`http::server`), page text and word anchors (`ocr`, `pattern`, `shapes`).
- `app/` is the plain Rust service around it: environment, actix-web
  handlers, the engine pools and the floating-point word boxes.
- `tests/` exercises the library.
