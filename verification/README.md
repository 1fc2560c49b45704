# codestrux

The verified core of the CodeStrux desktop backend, written in Verus.

- `src/` — the library, verified by Verus:
  - `download` — file locations and transfer mode of a model download, the
    size probe, chunk planning and the per-chunk retry state machine
    (`transfer`), host checks, chunk counts and the `Authorization` header
    (`client`), the single-download slot and the speed window (`types`);
  - `store` — the HuggingFace token and the downloaded-model registry;
  - `chat` — llama-server binaries, command lines and fallback order
    (`server`), model loading, prompt assembly from attachments and the
    reading of the server's event stream (`commands`), log lines
    (`logging`), and the shared chat data types (`types`);
  - `hardware` — CPU name, GPU choice and adapter memory totals;
  - `text` — character-level string operations with their specifications.
- `tests/` — runtime tests of the library.
- `app/` — the Tauri shell: commands, events, HTTP, files, child processes
  and floating-point statistics. It asks the library what to do after each
  response, stream end and launch attempt; what it decides itself is how
  concurrent work is coordinated: the first failing chunk of a parallel
  download cancels the others, and a launcher whose binary cannot be found
  counts as that launcher's failure before the next one is tried.
