# roggy

Networking, progression and world-generation core of a 2D bullet-heaven
game, written in Verus with machine-checked contracts.

- `src/` — the verified library:
  - `protocol/` wire types, delta updates, length-prefixed framing;
  - `world/` per-client baselines and interest management;
  - `sync/` client snapshot buffer and message reactions, server sessions,
    input buffers, per-client delta collection and message handling;
  - `components/`, `resources/` collision layers, experience, gold, pet and
    enemy tables, permanent upgrades and save data;
  - `terrain/` floor division, chunk coordinates, tile hashing and chunk
    streaming decisions;
  - `formation.rs` hexagonal pet formation slots;
  - `spawning.rs` boss milestones, enemy type selection and wave sizes.
- `app/` — a headless dedicated server and test client: QUIC transport,
  postcard encoding, save files, and the floating-point edges of the game.
- `tests/` — tests of the library.
