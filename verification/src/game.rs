use vstd::prelude::*;

verus! {

use crate::random::{Draw, gen_below, new_thread_rng};
use crate::skills::{
    SKILL_COUNT,
    Key,
    check_skill,
    classify_key,
    count_key,
    invokes,
    lemma_orb_keys_invoke,
    orb_keys,
    key_of,
    skill_at,
    skill_combo,
    skill_letter,
};

/// Number of skills asked for in one round.
pub const ROUND_LENGTH: usize = 10;

/// Where the drill stands.
#[derive(Clone, Copy, Debug, PartialEq, Eq, Structural)]
pub enum GameState {
    /// No round has been started yet.
    Idle,
    /// A round is under way.
    Playing,
    /// All skills of the round have been attempted.
    Finished,
}

/// What a typed character did, for the caller to act on (the caller keeps the clock).
#[derive(Clone, Copy, Debug, PartialEq, Eq, Structural)]
pub enum KeyEffect {
    /// Nothing changed.
    Ignored,
    /// An orb was added to the current attempt.
    Typed,
    /// The current attempt was judged.
    Confirmed {
        /// Whether the attempt invoked the requested skill.
        correct: bool,
        /// This was the first confirmation of the round: the clock starts now.
        starts_clock: bool,
        /// This was the last skill of the round: the clock stops now.
        finishes_round: bool,
    },
    /// A new round was drawn.
    Restarted,
}

/// How well a finished round went, by accuracy.
#[derive(Clone, Copy, Debug, PartialEq, Eq, Structural)]
pub enum Grade {
    /// At least 90 percent.
    High,
    /// At least 70 percent.
    Medium,
    /// Below 70 percent.
    Low,
}

/// The abstract state of a drill.
#[verifier::ext_equal]
pub struct GameView {
    pub state: GameState,
    /// The orbs typed since the last confirmation, as upper-case `Q`, `W`, `E`.
    pub input: Seq<char>,
    /// The skills requested in this round, by index into the skill table.
    pub targets: Seq<usize>,
    /// For each skill attempted so far, whether the attempt was correct.
    pub done: Seq<bool>,
    /// Whether the round's clock has been started.
    pub clock_started: bool,
}

/// Number of `true` entries.
pub open spec fn count_true(s: Seq<bool>) -> nat
    decreases s.len(),
{
    if s.len() == 0 {
        0
    } else {
        count_true(s.drop_last()) + if s.last() {
            1nat
        } else {
            0nat
        }
    }
}

/// A round's requested skills: `ROUND_LENGTH` valid skill indices.
pub open spec fn valid_targets(t: Seq<usize>) -> bool {
    &&& t.len() == ROUND_LENGTH
    &&& forall|i: int| 0 <= i < t.len() ==> #[trigger] t[i] < SKILL_COUNT
}

/// The character recorded for an orb key.
pub open spec fn orb_char(k: Key) -> char {
    match k {
        Key::Ice => 'Q',
        Key::Light => 'W',
        _ => 'E',
    }
}

pub open spec fn is_orb(k: Key) -> bool {
    k == Key::Ice || k == Key::Light || k == Key::Fire
}

impl GameView {
    /// The states a drill can be in.
    pub open spec fn valid(self) -> bool {
        &&& forall|i: int|
            0 <= i < self.input.len() ==> #[trigger] self.input[i] == 'Q' || self.input[i] == 'W'
                || self.input[i] == 'E'
        &&& match self.state {
            GameState::Idle => {
                &&& self.targets.len() == 0
                &&& self.done.len() == 0
                &&& self.input.len() == 0
                &&& !self.clock_started
            },
            GameState::Playing => {
                &&& valid_targets(self.targets)
                &&& self.done.len() < ROUND_LENGTH
                &&& self.clock_started == (self.done.len() > 0)
            },
            GameState::Finished => {
                &&& valid_targets(self.targets)
                &&& self.done.len() == ROUND_LENGTH
                &&& self.input.len() == 0
                &&& self.clock_started
            },
        }
    }
}

/// `targets` is a round of `ROUND_LENGTH` skills, each the value of one draw
/// from the generator over the whole skill table `0..SKILL_COUNT`.
pub open spec fn drawn_round(targets: Seq<usize>, draws: Seq<Draw>) -> bool {
    &&& draws.len() == ROUND_LENGTH
    &&& targets.len() == ROUND_LENGTH
    &&& forall|i: int|
        0 <= i < ROUND_LENGTH ==> (#[trigger] draws[i]).drawn_below() == SKILL_COUNT
            && targets[i] == draws[i].drawn()
}

/// The drill before any round.
pub open spec fn initial_view() -> GameView {
    GameView {
        state: GameState::Idle,
        input: Seq::empty(),
        targets: Seq::empty(),
        done: Seq::empty(),
        clock_started: false,
    }
}

/// A round that has just been drawn with `targets`.
pub open spec fn fresh_round(targets: Seq<usize>) -> GameView {
    GameView {
        state: GameState::Playing,
        input: Seq::empty(),
        targets,
        done: Seq::empty(),
        clock_started: false,
    }
}

/// Whether the current attempt invokes the next requested skill.
pub open spec fn attempt_correct(g: GameView) -> bool {
    invokes(g.input, skill_combo(g.targets[g.done.len() as int] as int))
}

/// Judging the current attempt against the next requested skill.
pub open spec fn confirm_step(g: GameView) -> GameView {
    let done = g.done.push(attempt_correct(g));
    GameView {
        state: if done.len() == ROUND_LENGTH {
            GameState::Finished
        } else {
            GameState::Playing
        },
        input: Seq::empty(),
        targets: g.targets,
        done,
        clock_started: true,
    }
}

/// Whether a character starts a new round: `N` once a round is finished.
pub open spec fn starts_new_round(g: GameView, c: char) -> bool {
    key_of(c) == Key::NewRound && g.state == GameState::Finished
}

/// Whether a character confirms an attempt.
pub open spec fn confirms(g: GameView, c: char) -> bool {
    key_of(c) == Key::Confirm && g.state == GameState::Playing && g.done.len() < ROUND_LENGTH
}

/// Whether a character adds an orb to the attempt.
pub open spec fn types_orb(g: GameView, c: char) -> bool {
    is_orb(key_of(c)) && g.state == GameState::Playing
}

/// The state after a character other than one that starts a new round.
pub open spec fn key_step(g: GameView, c: char) -> GameView {
    if types_orb(g, c) {
        GameView { input: g.input.push(orb_char(key_of(c))), ..g }
    } else if confirms(g, c) {
        confirm_step(g)
    } else {
        g
    }
}

/// What a character other than one that starts a new round reports.
pub open spec fn key_effect(g: GameView, c: char) -> KeyEffect {
    if types_orb(g, c) {
        KeyEffect::Typed
    } else if confirms(g, c) {
        KeyEffect::Confirmed {
            correct: attempt_correct(g),
            starts_clock: !g.clock_started,
            finishes_round: g.done.len() + 1 == ROUND_LENGTH,
        }
    } else {
        KeyEffect::Ignored
    }
}

/// The grade of an accuracy in percent.
pub open spec fn grade_of(accuracy: int) -> Grade {
    if accuracy >= 90 {
        Grade::High
    } else if accuracy >= 70 {
        Grade::Medium
    } else {
        Grade::Low
    }
}

proof fn lemma_count_true_push(s: Seq<bool>, b: bool)
    ensures
        count_true(s.push(b)) == count_true(s) + if b {
            1nat
        } else {
            0nat
        },
{
    assert(s.push(b).drop_last() =~= s);
}

/// There are never more correct attempts than attempts.
pub proof fn lemma_count_true_bound(s: Seq<bool>)
    ensures
        count_true(s) <= s.len(),
    decreases s.len(),
{
    if s.len() > 0 {
        lemma_count_true_bound(s.drop_last());
    }
}

/// The practice session: the drill state, without the clock and the images
/// that the user interface keeps.
pub struct KaelSkillsApp {
    state: GameState,
    current_input: String,
    target_skills: Vec<usize>,
    done_skills: Vec<bool>,
    current_count: usize,
    correct_count: usize,
    clock_started: bool,
    round_draws: Vec<Draw>,
}

impl View for KaelSkillsApp {
    type V = GameView;

    closed spec fn view(&self) -> GameView {
        GameView {
            state: self.state,
            input: self.current_input@,
            targets: self.target_skills@,
            done: self.done_skills@,
            clock_started: self.clock_started,
        }
    }
}

impl KaelSkillsApp {
    /// The drill is in a valid state and its counters agree with its record.
    pub closed spec fn wf(&self) -> bool {
        &&& self@.valid()
        &&& self.current_count == self.done_skills@.len()
        &&& self.correct_count == count_true(self.done_skills@)
        &&& self@.state != GameState::Playing ==> self.round_draws@.len() == 0
    }

    /// The draws from the generator that made the round under way. Empty when the
    /// round was given by the caller, before the first round, and once a round
    /// is finished: a new round needs new draws.
    pub closed spec fn draws(&self) -> Seq<Draw> {
        self.round_draws@
    }

    /// A well-formed drill has a valid view.
    pub proof fn lemma_wf_valid(&self)
        requires
            self.wf(),
        ensures
            self@.valid(),
    {
    }
}

impl Default for KaelSkillsApp {
    /// A drill before any round.
    fn default() -> (app: Self)
        ensures
            app.wf(),
            app@ == initial_view(),
            app.draws().len() == 0,
    {
        KaelSkillsApp {
            state: GameState::Idle,
            current_input: String::new(),
            target_skills: Vec::new(),
            done_skills: Vec::new(),
            current_count: 0,
            correct_count: 0,
            clock_started: false,
            round_draws: Vec::new(),
        }
    }
}

impl KaelSkillsApp {
    /// Starts a round that asks for `targets`, in order.
    pub fn start_game_with(&mut self, targets: Vec<usize>)
        requires
            valid_targets(targets@),
        ensures
            final(self).wf(),
            final(self)@ == fresh_round(targets@),
            final(self).draws().len() == 0,
    {
        self.round_draws = Vec::new();
        self.target_skills = targets;
        self.done_skills = Vec::new();
        self.current_input = String::new();
        self.current_count = 0;
        self.correct_count = 0;
        self.clock_started = false;
        self.state = GameState::Playing;
        assert(count_true(self.done_skills@) == 0);
    }

    /// Starts a round of `ROUND_LENGTH` skills drawn at random.
    pub fn start_game(&mut self)
        ensures
            final(self).wf(),
            valid_targets(final(self)@.targets),
            final(self)@ == fresh_round(final(self)@.targets),
            drawn_round(final(self)@.targets, final(self).draws()),
    {
        let mut rng = new_thread_rng();
        let mut targets: Vec<usize> = Vec::new();
        let mut draws: Vec<Draw> = Vec::new();
        let mut i: usize = 0;
        while i < ROUND_LENGTH
            invariant
                i <= ROUND_LENGTH,
                targets@.len() == i,
                draws@.len() == i,
                forall|j: int|
                    0 <= j < i ==> (#[trigger] draws@[j]).drawn_below() == SKILL_COUNT
                        && targets@[j] == draws@[j].drawn() && targets@[j] < SKILL_COUNT,
            decreases ROUND_LENGTH - i,
        {
            let draw = gen_below(&mut rng, SKILL_COUNT);
            targets.push(draw.value());
            draws.push(draw);
            i += 1;
        }
        assert forall|j: int| 0 <= j < targets@.len() implies #[trigger] targets@[j]
            < SKILL_COUNT by {
            assert(draws@[j].drawn_below() == SKILL_COUNT);
        }
        self.start_game_with(targets);
        self.round_draws = draws;
    }

    /// Judges the current attempt against the next requested skill.
    fn confirm(&mut self) -> (correct: bool)
        requires
            old(self).wf(),
            confirms(old(self)@, 'r'),
        ensures
            final(self).wf(),
            final(self)@ == confirm_step(old(self)@),
            final(self)@.state == GameState::Playing ==> final(self).draws() == old(self).draws(),
            correct == attempt_correct(old(self)@),
    {
        let expected_idx = self.target_skills[self.current_count];
        let (_, combo) = skill_at(expected_idx);
        let correct = check_skill(self.current_input.as_str(), combo);
        proof {
            lemma_count_true_push(self.done_skills@, correct);
            lemma_count_true_bound(self.done_skills@);
        }
        if correct {
            self.correct_count = self.correct_count + 1;
        }
        self.done_skills.push(correct);
        self.current_count = self.current_count + 1;
        self.current_input = String::new();
        self.clock_started = true;
        if self.current_count == ROUND_LENGTH {
            self.state = GameState::Finished;
            self.round_draws = Vec::new();
        }
        correct
    }

    /// Reacts to one typed character: `Q`, `W`, `E` add an orb while a round is
    /// under way, `R` judges the attempt, `N` starts a new round once one is
    /// finished; letters count in either case, and anything else is ignored.
    pub fn handle_key(&mut self, c: char) -> (effect: KeyEffect)
        requires
            old(self).wf(),
        ensures
            final(self).wf(),
            starts_new_round(old(self)@, c) ==> {
                &&& effect == KeyEffect::Restarted
                &&& valid_targets(final(self)@.targets)
                &&& final(self)@ == fresh_round(final(self)@.targets)
                &&& drawn_round(final(self)@.targets, final(self).draws())
            },
            !starts_new_round(old(self)@, c) ==> {
                &&& effect == key_effect(old(self)@, c)
                &&& final(self)@ == key_step(old(self)@, c)
                &&& final(self)@.state == GameState::Playing ==> final(self).draws() == old(
                    self,
                ).draws()
            },
            final(self)@.state != GameState::Playing ==> final(self).draws().len() == 0,
    {
        let key = classify_key(c);
        match key {
            Key::Ice | Key::Light | Key::Fire => {
                if self.state == GameState::Playing {
                    let ghost before = self.current_input@;
                    match key {
                        Key::Ice => {
                            self.current_input.append("Q");
                            proof { reveal_strlit("Q"); }
                        },
                        Key::Light => {
                            self.current_input.append("W");
                            proof { reveal_strlit("W"); }
                        },
                        _ => {
                            self.current_input.append("E");
                            proof { reveal_strlit("E"); }
                        },
                    }
                    assert(self.current_input@ =~= before.push(orb_char(key)));
                    KeyEffect::Typed
                } else {
                    KeyEffect::Ignored
                }
            },
            Key::Confirm => {
                if self.state == GameState::Playing && self.current_count < ROUND_LENGTH {
                    let starts_clock = !self.clock_started;
                    let correct = self.confirm();
                    KeyEffect::Confirmed {
                        correct,
                        starts_clock,
                        finishes_round: self.current_count == ROUND_LENGTH,
                    }
                } else {
                    KeyEffect::Ignored
                }
            },
            Key::NewRound => {
                if self.state == GameState::Finished {
                    self.start_game();
                    KeyEffect::Restarted
                } else {
                    KeyEffect::Ignored
                }
            },
            Key::Other => KeyEffect::Ignored,
        }
    }
}

impl KaelSkillsApp {
    /// The accuracy of the attempts so far, in percent of a full round.
    pub fn accuracy(&self) -> (percent: usize)
        requires
            self.wf(),
        ensures
            percent == 10 * count_true(self@.done),
            percent <= 100,
    {
        proof {
            lemma_count_true_bound(self.done_skills@);
        }
        self.correct_count * 10
    }

    /// The grade of the accuracy so far.
    pub fn grade(&self) -> (grade: Grade)
        requires
            self.wf(),
        ensures
            grade == grade_of(10 * count_true(self@.done) as int),
    {
        let accuracy = self.accuracy();
        if accuracy >= 90 {
            Grade::High
        } else if accuracy >= 70 {
            Grade::Medium
        } else {
            Grade::Low
        }
    }

    /// The letters of the skills requested in this round, in order.
    pub fn target_letters(&self) -> (letters: Vec<char>)
        requires
            self.wf(),
        ensures
            letters@.len() == self@.targets.len(),
            forall|i: int|
                0 <= i < letters@.len() ==> #[trigger] letters@[i] == skill_letter(
                    self@.targets[i] as int,
                ),
    {
        let mut letters: Vec<char> = Vec::new();
        let n = self.target_skills.len();
        let mut i: usize = 0;
        while i < n
            invariant
                self.wf(),
                n == self@.targets.len(),
                i <= n,
                letters@.len() == i,
                forall|j: int|
                    0 <= j < i ==> #[trigger] letters@[j] == skill_letter(self@.targets[j] as int),
            decreases n - i,
        {
            let (letter, _) = skill_at(self.target_skills[i]);
            letters.push(letter);
            i += 1;
        }
        letters
    }

    /// For each skill attempted so far: its letter and whether the attempt was correct.
    pub fn done_tiles(&self) -> (tiles: Vec<(char, bool)>)
        requires
            self.wf(),
        ensures
            tiles@.len() == self@.done.len(),
            forall|i: int|
                0 <= i < tiles@.len() ==> #[trigger] tiles@[i] == (
                    skill_letter(self@.targets[i] as int),
                    self@.done[i],
                ),
    {
        let mut tiles: Vec<(char, bool)> = Vec::new();
        let n = self.current_count;
        let mut i: usize = 0;
        while i < n
            invariant
                self.wf(),
                n == self@.done.len(),
                n <= self@.targets.len(),
                i <= n,
                tiles@.len() == i,
                forall|j: int|
                    0 <= j < i ==> #[trigger] tiles@[j] == (
                        skill_letter(self@.targets[j] as int),
                        self@.done[j],
                    ),
            decreases n - i,
        {
            let (letter, _) = skill_at(self.target_skills[i]);
            tiles.push((letter, self.done_skills[i]));
            i += 1;
        }
        tiles
    }

    /// Where the drill stands.
    pub fn state(&self) -> (state: GameState)
        ensures
            state == self@.state,
    {
        self.state
    }

    /// The orbs typed since the last confirmation.
    pub fn current_input(&self) -> (input: &str)
        ensures
            input@ == self@.input,
    {
        self.current_input.as_str()
    }

    /// The skills requested in this round, by index into the skill table.
    pub fn target_skills(&self) -> (targets: &Vec<usize>)
        ensures
            targets@ == self@.targets,
    {
        &self.target_skills
    }

    /// For each skill attempted so far, whether the attempt was correct.
    pub fn done_skills(&self) -> (done: &Vec<bool>)
        ensures
            done@ == self@.done,
    {
        &self.done_skills
    }

    /// Number of skills attempted so far.
    pub fn current_count(&self) -> (count: usize)
        requires
            self.wf(),
        ensures
            count == self@.done.len(),
    {
        self.current_count
    }

    /// Number of correct attempts so far.
    pub fn correct_count(&self) -> (count: usize)
        requires
            self.wf(),
        ensures
            count == count_true(self@.done),
    {
        self.correct_count
    }
}

/// The drill's response to a sequence of characters, none of which starts a new round.
pub open spec fn play(g: GameView, keys: Seq<char>) -> GameView
    decreases keys.len(),
{
    if keys.len() == 0 {
        g
    } else {
        key_step(play(g, keys.drop_last()), keys.last())
    }
}

/// A freshly drawn round is a valid state.
pub proof fn lemma_fresh_round_valid(targets: Seq<usize>)
    requires
        valid_targets(targets),
    ensures
        fresh_round(targets).valid(),
{
}

/// Every character keeps the drill in a valid state.
pub proof fn lemma_key_step_valid(g: GameView, c: char)
    requires
        g.valid(),
    ensures
        key_step(g, c).valid(),
{
    let n = key_step(g, c);
    if types_orb(g, c) {
        assert forall|i: int| 0 <= i < n.input.len() implies #[trigger] n.input[i] == 'Q'
            || n.input[i] == 'W' || n.input[i] == 'E' by {
            if i < g.input.len() {
                assert(n.input[i] == g.input[i]);
            }
        }
    }
}

/// Before the first round, every character is ignored.
pub proof fn lemma_idle_ignores_keys(g: GameView, c: char)
    requires
        g.state == GameState::Idle,
    ensures
        !starts_new_round(g, c),
        key_step(g, c) == g,
        key_effect(g, c) == KeyEffect::Ignored,
{
}

/// Once a round is finished, every character but `N` is ignored.
pub proof fn lemma_finished_ignores_all_but_new_round(g: GameView, c: char)
    requires
        g.state == GameState::Finished,
        key_of(c) != Key::NewRound,
    ensures
        key_step(g, c) == g,
        key_effect(g, c) == KeyEffect::Ignored,
{
}

/// A round ends after exactly `ROUND_LENGTH` confirmations, whatever was typed:
/// each confirmation records one attempt, and the clock runs from the first one.
pub proof fn lemma_round_length(targets: Seq<usize>, keys: Seq<char>)
    requires
        valid_targets(targets),
        forall|i: int| 0 <= i < keys.len() ==> key_of(#[trigger] keys[i]) != Key::NewRound,
    ensures
        ({
            let r = play(fresh_round(targets), keys);
            let n = count_key(keys, Key::Confirm);
            &&& r.valid()
            &&& r.targets == targets
            &&& r.done.len() == if n < ROUND_LENGTH {
                n
            } else {
                ROUND_LENGTH as nat
            }
            &&& (r.state == GameState::Finished <==> n >= ROUND_LENGTH)
            &&& (r.clock_started <==> n >= 1)
        }),
    decreases keys.len(),
{
    if keys.len() > 0 {
        let prefix = keys.drop_last();
        assert forall|i: int| 0 <= i < prefix.len() implies key_of(#[trigger] prefix[i])
            != Key::NewRound by {
            assert(prefix[i] == keys[i]);
        }
        lemma_round_length(targets, prefix);
        lemma_key_step_valid(play(fresh_round(targets), prefix), keys.last());
    }
}

proof fn lemma_play_orbs(g: GameView, s: Seq<char>)
    requires
        g.valid(),
        g.state == GameState::Playing,
        forall|i: int| 0 <= i < s.len() ==> #[trigger] s[i] == 'Q' || s[i] == 'W' || s[i] == 'E',
    ensures
        play(g, s) == (GameView { input: g.input + s, ..g }),
    decreases s.len(),
{
    if s.len() > 0 {
        let prefix = s.drop_last();
        assert forall|i: int| 0 <= i < prefix.len() implies #[trigger] prefix[i] == 'Q'
            || prefix[i] == 'W' || prefix[i] == 'E' by {
            assert(prefix[i] == s[i]);
        }
        lemma_play_orbs(g, prefix);
        assert(s.last() == s[s.len() - 1]);
        assert((g.input + prefix).push(s.last()) =~= g.input + s);
    } else {
        assert(g.input + s =~= g.input);
    }
}

/// Typing the orbs of the requested skill and confirming scores a correct attempt.
pub proof fn lemma_typing_orbs_scores(g: GameView)
    requires
        g.valid(),
        g.state == GameState::Playing,
        g.input.len() == 0,
    ensures
        ({
            let combo = skill_combo(g.targets[g.done.len() as int] as int);
            play(g, orb_keys(combo).push('R')).done == g.done.push(true)
        }),
{
    let combo = skill_combo(g.targets[g.done.len() as int] as int);
    let keys = orb_keys(combo);
    let q = Seq::new(combo.ice as nat, |_i: int| 'Q');
    let w = Seq::new(combo.light as nat, |_i: int| 'W');
    assert forall|i: int| 0 <= i < keys.len() implies #[trigger] keys[i] == 'Q' || keys[i]
        == 'W' || keys[i] == 'E' by {
        if i < q.len() {
            assert(keys[i] == 'Q');
        } else if i < q.len() + w.len() {
            assert(keys[i] == 'W');
        } else {
            assert(keys[i] == 'E');
        }
    }
    lemma_play_orbs(g, keys);
    assert(keys.push('R').drop_last() =~= keys);
    assert(g.input + keys =~= keys);
    lemma_orb_keys_invoke(combo);
}

/// The order of the grades, from worst to best.
pub open spec fn grade_rank(g: Grade) -> int {
    match g {
        Grade::Low => 0,
        Grade::Medium => 1,
        Grade::High => 2,
    }
}

/// A better accuracy never gets a worse grade.
pub proof fn lemma_grade_monotone(a: int, b: int)
    requires
        a <= b,
    ensures
        grade_rank(grade_of(a)) <= grade_rank(grade_of(b)),
{
}

/// The grade thresholds: below 70 percent is Low, 70 up to 89 is Medium, 90 and
/// above is High.
pub proof fn lemma_grade_thresholds(accuracy: int)
    ensures
        accuracy < 70 ==> grade_of(accuracy) == Grade::Low,
        70 <= accuracy < 90 ==> grade_of(accuracy) == Grade::Medium,
        accuracy >= 90 ==> grade_of(accuracy) == Grade::High,
{
}

/// Each correct attempt adds ten points of accuracy: one more correct attempt
/// in the record raises the score by exactly ten, a wrong one leaves it.
pub proof fn lemma_accuracy_per_attempt(done: Seq<bool>, correct: bool)
    ensures
        10 * count_true(done.push(correct)) == 10 * count_true(done) + if correct {
            10int
        } else {
            0int
        },
{
    lemma_count_true_push(done, correct);
}

} // verus!
