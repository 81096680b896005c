# stars

An every-day calendar: each user keeps boards, and each board is a year
grid of twelve month columns with one cell per day that can be toggled.

- `src/` is the verified library (Verus): the calendar rules
  (`calendar`), the day states of a board year and their summary (`days`),
  the board and user records and the toggle decision of the store
  (`store`), identity resolution from proxy headers (`auth`), the
  configuration (`config`), the view data (`templates`) and the decisions
  of each web handler (`handlers`: the grid, year selection, board names,
  redirects, error statuses, toggled cells).
- `app/` is the service around it: environment, SQLite through sqlx,
  routing and middleware with axum, HTML rendering through askama.
- `tests/` runs the library on concrete values.
