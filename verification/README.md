# vitaline

A menu-bar CI monitor for GitLab, GitHub Actions and Azure DevOps: it polls
the pipelines of the watched projects, shows them in a notch-style pill or a
desktop widget, and sends a notification when a pipeline fails, recovers, or
a new merge request opens.

- `src/` is the library, verified with Verus: status aggregation, the
  settings and their sanitizing, each provider's requests, answers and error
  messages, GitLab's stage breakdown (retries keep their place), Azure's
  timeline tree, the snapshot and what it announces between refreshes, the
  tray's texts, and the commands' checks.
- `tests/` runs the library on concrete values.
- `app/` is the desktop shell around it (Tauri windows, tray, keychain,
  config file, HTTP); it hands the library plain values and shows what comes
  back.
