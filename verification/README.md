# clawcombat

The rules of a squad-level tactical battle simulation, written in Verus:
every function in `src/` carries a contract that Verus proves.

- `src/`: the verified library. Terrain tiles and path costs (`terrain`,
  `path`), soldiers, squads and their decisions (`soldier`, `roster`,
  `doctrine`, `gesture`, `engagement`, `objective`, `cqb`, `fight`, and
  `conduct`, which puts them together into a soldier's step and an idle
  leader's step, and how orders reach a squad), squads sent to support
  another (`support`), what the battle's events leave behind (`events`),
  companies and
  scouts (`company`), flags and the memory of enemy fire (`flag`, `pings`),
  the battle log's counts (`tally`), typed and spoken orders (`chat`, `ime`,
  `command`, `keywords`), and the language model's prompts and answers
  (`llm`, `tactics`, `reply`). `text` holds the string helpers they share.
- `tests/`: tests of the library on concrete values.
- `app/`: the unverified glue: floating-point geometry, files, the
  morphological analyser's dictionary, the model engine process and
  sentence embeddings.

Calls into outside crates (`rand`, `serde_json`, `mecab-ko`) and into
the few standard library functions that Verus does not specify go through
small trusted wrappers whose contracts are stated next to them.
