# uxie_verified

Data access for Generation 4 Pokémon ROM hacking projects (Diamond/Pearl,
Platinum, HeartGold/SoulSilver), written in Verus: every function of the
library states what it returns in its contract, and Verus proves it.

## Layout

- `src/` — the verified library.
  - `bytes`, `text`, `path` — little-endian fields, strings and path joins
    with their specifications.
  - `c_parser` — `#define`s, enums, includes, the constant-expression
    evaluator, function-like macro expansion, the symbol table with its
    C-header loader (enumerators, `#define`s evaluated when loaded or later
    on lookup, function-like macros), and the list-file, Python-enum,
    text-bank and assembly `equ` loaders. Text-bank JSON is parsed by
    `serde_json` behind one trusted wrapper; the loaders' logic is proved
    over the parsed tree (`c_parser::json`). `c_parser::include_walk` is
    the state machine of loading a header with its includes: which file
    next, where an include is looked for, what a loop back or a missing
    include does; the program performs its file-system actions.
  - `map_header`, `event_file`, `encounter_file`, `move_data`, `item_data`,
    `evolution_data`, `learnset_data`, `egg_move_data` — the binary records,
    each with a decoder, an encoder and a proof that decoding what was
    encoded gives back the fields the layout holds (for encounter tables,
    the whole table when it carries nothing its layout drops; for event
    files, also that the encoded bytes are always readable); event and
    encounter files also have their JSON forms.
  - `decomp_data` — the decompilation projects' move (JSON), item (CSV),
    species and trainer data converted to binary records (`trainer_data`
    holds the trainer record), and where their files live.
  - `ds_rom`, `narc_paths`, `game`, `error` — project layouts, game
    families and errors.
- `tests/` — tests run against the compiled library.
- `app/` — the command-line program: argument handling, file reading and
  printing around the library.
