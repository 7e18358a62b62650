# astral_auto_patcher

The decisions of the Astral Party automatic Korean patcher, written in Verus
and verified: which mode and target a launch asks for, where the game and its
downloaded data live, which release assets to take, what to remove, and the
install, patch and remove workflows with the progress events they send.

- `src/` — the verified library:
  - `text` — trimming, ASCII case folding, pattern tests, decimal rendering, joining;
  - `target`, `launch` — patch targets and the command-line / `astral://` launch decision;
  - `semver`, `release` — version normalisation and comparison, release asset choice;
  - `steam`, `lookup` — Steam library discovery and target-specific lookups;
  - `removal`, `report`, `bundle`, `install` — removal rules, the sorting of deletion outcomes, summaries, bundle application and self-install details;
  - `workflow` — the three workflows as a state machine, with its invariants.
- `tests/` — tests on concrete values.
- `app/` — the Tauri shell: commands, logging, network, file system, registry and processes.
