# wake_workbench

The decision logic of Wake's workbench window, verified with Verus: how the
session list is paged, sectioned by date and expanded into nested sessions;
what the transcript reader shows and which images it may decode; how cleanup
runs are filtered, reviewed, carried out, checked and summarised; and the
counts behind the insights page.

- `src/` is the verified library. Each module states its behaviour as
  `requires`/`ensures` contracts over spec functions; laws that relate
  several operations are public proof functions named `law_*`.
- Calls into `chrono` (calendar days, local time) and `image` (format
  sniffing, header sizes, frame decoding) go through small trusted wrappers
  whose contracts say what the library relies on.
- `app/` holds what stays outside the proofs: JSON preferences (serde), the
  local clock, and texts computed with floating point.
- `tests/` runs the library on concrete values.
