# vibi_core

The core of the Vibi agent runtime as a Verus-verified library, with a thin
command-line front end.

- `src/` — the library, verified by Verus. Its functions carry
  `requires`/`ensures` contracts; calls into outside crates (regex, ring,
  uuid, chrono, std's UTF-8 and path helpers) go through small trusted
  wrappers whose contracts say what the crates document (the two that
  read the clock promise nothing of the time they return). Public `law_*`
  proof functions state properties that span several operations
  (decryption undoes encryption, hex decoding undoes encoding,
  deduplication is idempotent, rejected commands stay findable, approved
  ones are consumed, pieces of a bridged message may arrive in any order,
  the jobs of a program compile one after the other, a project's
  `.vibecode` file reads back the uuid and name it was written with, and
  so on).
- `tests/` — tests that run the compiled library against the real outside
  crates.
- `app/` — the program around the library: reading and writing files
  (the sandbox's `.vibecode` project files among them), running
  processes, HTTP calls to the model providers, the hardware-usage
  WebSocket server, and JSON persistence.
