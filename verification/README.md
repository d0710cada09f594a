# kael_skills

A practice drill for Invoker's skills. A round asks for ten skills drawn at
random; the player types the orb keys (Q = ice, W = light, E = fire, in any
order and either case) and confirms each attempt with R. After ten attempts
the round is over and N draws a new one.

- `src/skills.rs`: the skill table, key classification and `check_skill`,
  with proofs about the table and about attempts.
- `src/game.rs`: the drill as a state machine (`KaelSkillsApp::handle_key`),
  its abstract view `GameView`, and proofs about rounds.
- `src/random.rs`: the calls into `rand` that draw a round.
- `app/`: the egui window, the clock and image loading.
