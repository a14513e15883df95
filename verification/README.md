# zipline

Lock your files with one password — a friendly terminal wizard over the
system's `age` and `7-Zip` tools, which can also write a plain `.zip`.

The logic is a library whose behaviour is stated in `requires`/`ensures`
contracts and proved with Verus; the program around it only reads keys and
files, starts processes and draws.

## Layout

- `src/` — the verified library:
  - `app` — the wizard as a state machine: a key or an answer in, the next
    state and what to ask the outside world out;
  - `browser` — the file picker (listing, fuzzy filter, typed paths, marks);
  - `backend` — the three backends, tool lookup, output names, preflight
    checks, friendly errors, and where unpacked files may land;
  - `commands` — the helper tools' command lines;
  - `archive` — vetting archive listings and symbolic links;
  - `steps` — the order of the steps that pack and open archives (names
    vetted before unpacking, links checked before placing, half-written
    archives removed);
  - `cli` — the `lock` and `open` command lines;
  - `pty` — reading a tool's terminal output: prompts, failures, scrubbing;
  - `ui` — what each screen says;
  - `paths`, `text`, `order` — path, text and ordering helpers;
  - `update` — the pinned installer pipeline.
- `app/` — `main`, the terminal loop, processes, pseudo-terminals and files.
- `tests/` — tests of the library.
