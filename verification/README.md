# sekou_taisei

Verified logic of two tools that work on the documents of a construction
project:

- a code-health analyser: line statistics per language, issue detection by
  regular expressions, cyclomatic complexity and nesting, Markdown/HTML
  reports, and work items (task files, an index and batches) generated from
  the issues found;
- a dashboard for the legal documents of a site's contractors: existence and
  expiry checks, cards and editors for contractors and their documents, the
  document viewers' address and message handling, the Apps Script time
  stamp, base64 transport of project data, and a bounded log.

## Layout

- `src/` — the library, written and proved with Verus. Each public function
  states in `ensures` what it returns over spec functions of its module;
  laws that relate several functions are public proof functions named
  `lemma_*`. Calls into `regex`, `base64` and `serde_json` (and a few `std` functions
  that vstd leaves unspecified) go through small trusted wrappers whose
  contracts name what they return.
- `tests/` — tests of the library on concrete values.
- `app/` — the command-line tool: argument parsing, walking and reading the
  source tree, JSON output with serde, the floating-point health score, and
  writing the generated files.
