# kemenkeu_backend

The rules of a family finance tracker's REST API (users, income and expense
categories, transactions, monthly budgets, summaries), written in Verus.

- `src/` holds what the requests decide: the session cookie and how it is
  read back, validation of names, category types, amounts and budgets, how
  an update merges with the stored record, the listing queries and the
  values bound to them, budget status arithmetic, summary totals and the
  splitting of the schema script. Each function states its result in its
  contract; the laws (e.g. a login cookie reads back as the same user) are
  proof functions beside them.
- `app/` is the HTTP server (axum) and the MySQL work (sqlx) around the
  library.
- `tests/` runs the library on concrete values.
