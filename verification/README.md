# Ethervoid

Ethervoid is a top-down action game whose content (maps, enemies, NPCs,
attacks, languages) is declared in data files grouped into *cores*. This crate
holds the game's rules as a library verified with Verus, and the program
around it.

## Layout

- `src/` — the verified library.
  - `config` — key binding names, the keys or mouse buttons they stand for, and
    the keys a JSON config binds.
  - `cores` — splitting core file paths, naming core files and languages, and
    telling when the files of the cores changed.
  - `attackscript` — attack scripts keyed by the name of their file.
  - `lang` — language texts and merging the lang files of each language.
  - `doors` — directions and finding the door that leads back.
  - `combat` — attack types and owners, and how parries resolve.
  - `messages` — NPC messages read line by line, the rolls that decide which
    one is read, and which one an NPC says when hit.
  - `goal` — the turn-by-turn decisions of goal-driven objects.
  - `behavior` — what an object does in its turn (stunned, steered, or running goals).
  - `paused` — the pause state (dialogue, hitstop, pause menu) and what each frame does.
  - `player` — switching weapons.
  - `obj` — facings along an axis.
  - `entity` — health and invincibility of entities.
  - `sprite`, `texturedobj`, `ui`, `map` — picking sprite frames, attack frames,
    the visible part of an image, the edges of walls, and which placed enemies
    and NPCs have a known type.
  - `process` — downscaling images.
  - `save` — the save's contents and the bytes of the save file (bincode,
    then zstd).
  - `text` — comparing strings.
- `app/` — the program around the library: reading the config, core and save
  files (again when they change), polling input, the frame loop with its pause
  state, parries, physical hits, deaths and turns, and the floating-point parts
  (health, attack placement, touching), and placing a map's NPCs. Drawing,
  movement and collisions, audio and the script engines are not part of it.
- `tests/` — tests of the library.
