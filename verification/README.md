# stress-tester

Stress-tests competitive-programming solutions against a trusted reference
implementation, using a testlib-style generator. Each test is one cycle: run the
generator with a seed, feed its output to the candidate and to the reference, and
compare the two outputs with a checker. The first failing test stops the run and
its data is saved.

What the program decides and computes is a library verified with Verus. What it
does to the world around it is ordinary Rust.

## Layout

- `src/` is the verified library.
  - `text`, `number`, `path`, `duration`: strings, integers, file paths and spans
    of time. `double` states in exact integer arithmetic what printing an IEEE
    double with a fixed number of decimals shows.
  - `checker`: the built-in checkers `wcmp`, `lcmp`, `ncmp`, `rcmp4`, `rcmp6`,
    `rcmp9` and `nyesno`, and the exit codes of custom ones. `checker_laws` holds
    what is true of them for all texts.
  - `runner`: when a running process is killed, and how the operating system's
    figures are read.
  - `lang`, `builder`: languages, toolchains, compile commands, cache keys, the
    order in which a program is built, and the command that runs it.
  - `judge`: the stages of a test and the verdict.
  - `report`: what is shown, as lines of styled text.
  - `session`: options, seeds, the tally of a run, its exit code and the files
    saved of a failing test.
- `app/` is the program around the library: the command line, processes, files,
  threads, the terminal, and floating-point arithmetic.
- `tests/` runs the library on concrete values.

## What is proved

Every function of the library has a contract that says exactly what it returns.
Statements about several functions, or about all runs, stand beside them as proof
functions: for example that an accepted test passed every stage, that only a
complete build is ever marked as such, that a hang is a timeout, that the first
failure is the one reported, and what each exit code means.

Five items are trusted. `String::push`, the `{:?}` form of a string,
`String::from_utf8_lossy`, `sha2::Sha256::digest` and the line diff of `similar`
are called behind contracts that are believed; their doc comments say what is
claimed.

## Limits

Time limits are CPU time, user and system together, so that a verdict does not
change because the machine is busy. A wall-clock limit of twice the time limit and
ten seconds more catches programs that hang without burning CPU.
