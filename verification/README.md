# file_share

A verified library for a small file-sharing web service and two companion
user services.

- `code`: base-34 short codes (`gen_code`, `de_code`) and base-`n` text (`base_n`),
  with the round-trip laws between them.
- `deque`: the shuffled pool of short-code numbers (`RandomDeque`).
- `access`: access key ids, security tokens, the links that carry them, and
  the encryption of uploaded files.
- `file`: the record kept for each shared file.
- `share`: short-code checks, storage paths, links, chunked-upload plans, and
  the record written for a newly shared file.
- `job`: the decisions of the scheduled jobs (tick counter, retiring expired
  files, MD5 text of stored files).
- `sql`: the `users` row and the SQL text written for it.
- `router`: the route tables of the three services.
- `text`: character and decimal helpers.

`app/` holds the web handlers, the scheduled jobs and `main`, which do the
I/O around the library.
