# mediafire_rs

A bulk downloader for MediaFire files and folders (`mdrs`), with its logic
verified by Verus.

- `src/` is the verified library: link recognition and key splitting
  (`utils`, `text`), the URL file cleaning (`urls`), API request URLs
  (`api`), the download queue ordered by file size (`size`, `queue`,
  `types/download.rs`), the retry budget of a download (`download`), the folder walk and the
  steps of one download (`downloader`), the
  progress bar updates (`progress`), the failure report (`report`), hash
  checking (`utils`) and the API data types (`types`).
- `app/` is the command-line program: argument parsing, files, HTTP,
  progress bars and the worker tasks.
- `tests/` runs the library on concrete inputs.
