# FastFileOCR core

The verified core of FastFileOCR, a desktop OCR application: Markdown and table
structure, resumable downloads, workspaces, preferences, runtime selection, model
settings, exports, updates and the installer's data-directory rules. Verus proves
the functions of `src/` against their contracts, except a small set of trusted
wrappers around outside crates and std (Markdown parsing and HTML cleaning, HTML
table reading, semantic versions, SHA-256, UUIDs, JSON and Base64 encoding, HTTP
status texts, lower-casing, path extensions and the clock). Their contracts are
believed, not proved, and each names the outside function it calls.

- `src/` — the library, one module per concern (`table`, `document`, `download`,
  `store`, `models`, `recognition`, `runtimes`, `checksum`, `updates`,
  `configuration`, `export`, `installer`, `engine`, `import`, `i18n`, `strings`).
- `tests/` — executable tests of the library.
- `app/` — the I/O around it: files, HTTP, the inference server process, GPU
  probes, the layout detector, image and PDF import, and the installer helper's
  `main`. The desktop shell (window, commands, tray) is not part of this crate.
