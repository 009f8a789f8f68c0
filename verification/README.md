# ov_cli

The core of the OpenViking command line client, verified with Verus.

`src/` is the library. Every function in it carries a contract that Verus
proves:

- `args` rewrites the raw command line (`privacy <category> <target>` becomes
  `privacy get ...`, `--key-<name> <value>` becomes `--key <name>=<value>`).
- `cli` holds the configuration and command line context: identity overrides,
  `--sudo` and the root API key, the upload flags and where they are allowed.
- `base_client` builds the headers of every request and interprets the
  server's JSON envelope (API errors, reported errors, the `result` member).
- `uploader` decides which directories a directory walk enters, how archive
  entries are named and how uploads are addressed and answered.
- `handlers` shapes request parameters such as the time filters.
- `json`, `text` and `http_types` model JSON values, strings and the
  `reqwest` header map and status codes the rest is stated over.

`app/` is ordinary Rust around the library: the HTTP transport, compression
and upload of files, progress bars, timeouts computed from file sizes, and
the command line plumbing. It is not verified.

`tests/` exercises the library on concrete values.
