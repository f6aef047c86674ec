# carcinisation

Gameplay rules of the Carcinisation stage as a verified library: every
function in `src/` carries a contract that Verus proves.

- `composed/` — composed enemies: the compact manifest and what a valid one
  is (`compact`), the cache builder that checks and converts it (`prepare`),
  sprite-to-atlas binding (`bindings`), animation playback and track
  resolution (`playback`, `tracks`), frame composition (`compose`), one
  visual update of an enemy from clock to image (`frame`), part
  damage through shared health pools (`damage`), hit blinks (`blink`) and
  broken-part bookkeeping (`state`).
- `enemy`, `behavior` — species decisions: Mosquiton ranged limits and
  behaviour patterns, animation choices, attack cooldowns, and the
  behaviour queue with its refills.
- `intent`, `attack_input` — Select+A chord resolution into melee, item
  select and shots, and the fire button's arm/hold/release cycle.
- `overrides` — per-step settings that carry forward to later steps, and
  the floor span that decides each lane.
- `attacks`, `pickup`, `stage`, `sprite_names`, `depth` — attack table and
  loadout cycling, health pickups and the pickup composite, stage
  progression, sprite naming, depth lanes.
- `keyed`, `sort`, `geometry` — string-keyed tables, stable ordering,
  integer pixel vectors.

Times are stage-clock nanoseconds. Floating-point presentation maths, RON
loading and engine glue live in `app/`, outside verification.
