# binaris

Static binary analysis with machine-checked contracts: file identification,
hashing, strings and network indicators, imports, packers, cryptography,
security findings, pseudocode, program graphs, reports, chat answers grounded
in the evidence, and an in-memory store of the platform's records.

- `src/` is the library, written in Verus. Every public function states what
  it returns in its `ensures`; the laws that span several functions are
  public proof functions named `law_*`. Calls into outside crates (goblin,
  capstone, infer, zip, url, regex, the hash crates, argon2, rand, uuid,
  chrono) go through small trusted wrappers whose contracts are documented
  beside them.
- `app/` is the program around it: the command line (`inspect`, `diff`,
  `hash`, `assemble`, token commands and the client commands of a server),
  the HTTP API (`serve`), entropy (floating point), external decompilers,
  network lookups and the JSON forms of the records.
- `tests/` runs the library on concrete inputs.

Two things are deliberately left out of the library:

- The malware classifier is a separate component that this project does not
  include. The pipeline in `app/` records the pending verdict (`empty_malware`:
  family unknown, probability and confidence 0) in its place.
- Only OpenAI, OpenRouter, Ollama and Gemini are reached as remote
  OpenAI-compatible model providers; any other provider name, whatever its
  vendor, is answered by the local evidence-bound engine.
