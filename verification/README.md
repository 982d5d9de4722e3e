# barbershop

The rules of a barbershop management desktop application, written in Verus and proved
against their contracts.

- `src/` is the verified library: clock times and their minute offsets (`clock`), text
  helpers (`text`), calendar dates through chrono (`dates`), the agenda (`schedule`,
  `services`, `appointments`), the weekly opening hours (`opening_hours`), the cash book and
  its commissions (`finance`), the monthly report (`report`), the register forms
  (`records`), client history records (`client_history`) and database maintenance
  (`maintenance`).
- `app/` is the desktop shell: the SQLite database (rusqlite), files and backups, the clock,
  and the Tauri commands that the interface calls. It reads what the rules need, calls the
  library, and writes back what the library decided.
- `tests/` runs the library on concrete values.
