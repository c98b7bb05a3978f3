# iced_a11y

Accessibility identities and trees for widgets, and the focus bookkeeping of
the windowing shell, each with its contract and proof.

- `src/widget_id.rs`: widget ids, the unique-id counter, stable node keys.
- `src/a11y.rs`: node identities, nodes, trees, window node keys.
- `src/shell.rs`: the focus state of a window and the placeholder tree served
  on activation.
- `src/access.rs`: the declarations and wrappers through which the library
  calls the `accesskit` crate.
- `src/laws.rs`: properties that span several operations.
- `app/`: the process-wide counters and the AccessKit adapter handlers.
