# wasamo_runtime

The platform-independent core of the Wasamo UI runtime, verified with Verus:
loading the textual IR that the `.ui` compiler emits (header check, lexer,
parser, validation rules, element-type annotation), the arithmetic that places
materialised children of `if` / `for` members and Grid cells, keyboard focus
traversal, hit testing, the callback queue and drain phases, the inline
handler evaluator, the starting values of state signals and of each widget's
settings, and the guards of the C ABI.

Layout:

- `src/` — the verified library. Each module states its behaviour as
  `requires` / `ensures` over spec functions; modules ending in `_laws`
  (and the `law_*` proof functions elsewhere) state properties that span
  several functions or hold of every state.
- `tests/` — tests run against the compiled library.
- `app/` — what stays outside: floating-point geometry, the panic boundary
  around handlers, the per-thread last-error slot, and the drain loop that
  performs the work the emit state machine asks for.
