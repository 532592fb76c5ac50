# nestworth

The verified core of a local-first household balance sheet: the rules
behind its records, written in Verus and proved against their contracts.

- `src/` is the library. Each module states what its functions return in
  `requires` / `ensures`, over spec functions and views; the public proof
  functions named `law_*` state what holds across calls (round trips,
  canonical forms, shares adding up, urgency never easing).
- `net_worth` computes the overview (assets, liabilities, net worth and
  their split by category, Member, institution and group) and `portfolio`
  the investment portfolio, both from Accounts and valuations given as plain
  values; `keyed_sums` holds the running sums per key they share.
- `history_items` turns the valued components of a day into its snapshot
  items, and `maintenance_builder` the watched targets and due pending
  Activities of a day into the ordered maintenance queue.
- Calls into `rust_decimal`, `chrono`, `chrono-tz`, `uuid`, `base64` and
  `image` go through small trusted wrappers whose doc comments say what
  their contracts claim of the outside code.
- `tests/` runs the library on concrete values.
- `app/` is ordinary Rust around it: command error payloads, file reads of
  images, and the asynchronous plumbing of market-data providers.
