# card_test

The rules of a small 3D card table game, verified with Verus, and the Bevy
program that plays it.

- `src/` — the library. Every function carries a contract that Verus proves.
  - `card_info.rs`: the card catalogue (`get_card_info`).
  - `cards.rs`: how a card answers the pointer (`card_step` and one function
    per pointer event), the laws of that answer, and which tweens a finished
    animation leaves to remove (`clear_on_finish_system`).
  - `hands.rs`: the slot order of the hand when it is laid out again
    (`hand_order`, `change_hand_cards`), with the laws that the order is
    determined by where the cards lie and that an ordered hand keeps its slots.
  - `preview_plugins.rs`: the long-press / click preview decisions.
  - `lib.rs`: which effect an animation event asks for, and which finished
    effects are removed.
- `tests/` — tests of the library on concrete values.
- `app/` — the Bevy program: entities, meshes, tweens, UI, and all floating
  point geometry (hand fan positions, card meshes, cursor ray casting, colour
  mixing, camera shake). It reads the ECS state, asks the library what to do,
  and carries the answer out. Run it with the argument `sandbox` for the
  single-card scene.
