# proexel

Asset maintenance for industrial plants: machines and their items, categories with
maintenance guides, service orders and guided inspections, stock, restock requests,
suppliers, user accounts, an audit trail, and the import of a legacy export.

## Layout

- `src/` is the library, verified with Verus. The state and its commands live in
  `state.rs` (`execute`, `handle_command`) with one module per kind of record
  (`categories`, `machines`, `items`, `photos`, `orders`, `inspections`, `inventory`,
  `suppliers`, `users`); the read side is in the `query_*` modules; schema-1 states are
  migrated by `legacy.rs`; legacy exports are imported by `bundle_import.rs` with the
  `import_*` modules; `reimport.rs` proves that importing the same export twice adds
  nothing the second time, and `import_agreement.rs` that two imports of the same export
  into the same state report the same. `admin_guard.rs` proves that no command removes the last
  active administrator.
- `tests/` runs the library on concrete values.
- `app/` is the program around it: JSON copies of the records (`wire_*`), the state
  file, the service on the AppCore runtime, and the `migrate` command.
