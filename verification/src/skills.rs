use vstd::prelude::*;

verus! {

/// How many orbs of each element a skill takes.
#[derive(Clone, Copy, Debug, PartialEq, Eq, Structural)]
pub struct SkillCombo {
    pub ice: u8,
    pub light: u8,
    pub fire: u8,
}

/// What a typed key means during a drill.
#[derive(Clone, Copy, Debug, PartialEq, Eq, Structural)]
pub enum Key {
    /// `Q`: an ice orb.
    Ice,
    /// `W`: a light orb.
    Light,
    /// `E`: a fire orb.
    Fire,
    /// `R`: confirm the current attempt.
    Confirm,
    /// `N`: start a new round once the current one is over.
    NewRound,
    /// Any other character.
    Other,
}

/// The meaning of a character, case-insensitively.
pub open spec fn key_of(c: char) -> Key {
    if c == 'q' || c == 'Q' {
        Key::Ice
    } else if c == 'w' || c == 'W' {
        Key::Light
    } else if c == 'e' || c == 'E' {
        Key::Fire
    } else if c == 'r' || c == 'R' {
        Key::Confirm
    } else if c == 'n' || c == 'N' {
        Key::NewRound
    } else {
        Key::Other
    }
}

/// Classifies a character by its lower-case form.
pub fn classify_key(c: char) -> (k: Key)
    ensures
        k == key_of(c),
{
    if c == 'q' || c == 'Q' {
        Key::Ice
    } else if c == 'w' || c == 'W' {
        Key::Light
    } else if c == 'e' || c == 'E' {
        Key::Fire
    } else if c == 'r' || c == 'R' {
        Key::Confirm
    } else if c == 'n' || c == 'N' {
        Key::NewRound
    } else {
        Key::Other
    }
}

/// Number of characters of `s` that mean `k`.
pub open spec fn count_key(s: Seq<char>, k: Key) -> nat
    decreases s.len(),
{
    if s.len() == 0 {
        0
    } else {
        count_key(s.drop_last(), k) + if key_of(s.last()) == k {
            1nat
        } else {
            0nat
        }
    }
}

/// A key that may appear in an attempt: an orb or the confirm key.
pub open spec fn is_attempt_key(c: char) -> bool {
    key_of(c) == Key::Ice || key_of(c) == Key::Light || key_of(c) == Key::Fire || key_of(c)
        == Key::Confirm
}

/// An attempt invokes `expected` when it holds only orb and confirm keys and
/// exactly the orbs of `expected`, in any order.
pub open spec fn invokes(s: Seq<char>, expected: SkillCombo) -> bool {
    &&& forall|i: int| 0 <= i < s.len() ==> is_attempt_key(#[trigger] s[i])
    &&& count_key(s, Key::Ice) == expected.ice
    &&& count_key(s, Key::Light) == expected.light
    &&& count_key(s, Key::Fire) == expected.fire
}

/// Checks whether `input` invokes the skill made of `expected`.
pub fn check_skill(input: &str, expected: SkillCombo) -> (ok: bool)
    ensures
        ok == invokes(input@, expected),
        ok ==> count_key(input@, Key::Ice) == expected.ice && count_key(input@, Key::Light)
            == expected.light && count_key(input@, Key::Fire) == expected.fire,
{
    let n = input.unicode_len();
    let mut ice: usize = 0;
    let mut light: usize = 0;
    let mut fire: usize = 0;
    let mut i: usize = 0;
    while i < n
        invariant
            n == input@.len(),
            i <= n,
            ice == count_key(input@.take(i as int), Key::Ice),
            light == count_key(input@.take(i as int), Key::Light),
            fire == count_key(input@.take(i as int), Key::Fire),
            ice <= i,
            light <= i,
            fire <= i,
            forall|j: int| 0 <= j < i ==> is_attempt_key(#[trigger] input@[j]),
        decreases n - i,
    {
        let c = input.get_char(i);
        assert(input@.take(i + 1).drop_last() =~= input@.take(i as int));
        match classify_key(c) {
            Key::Ice => ice += 1,
            Key::Light => light += 1,
            Key::Fire => fire += 1,
            Key::Confirm => {},
            _ => {
                return false;
            },
        }
        i += 1;
    }
    assert(input@.take(n as int) =~= input@);
    ice == expected.ice as usize && light == expected.light as usize && fire == expected.fire
        as usize
}


/// Number of skills that can be invoked.
pub const SKILL_COUNT: usize = 10;

/// The letter that names skill `i` (in the order B C D F G T V X Y Z).
pub open spec fn skill_letter(i: int) -> char {
    if i == 0 { 'B' }
    else if i == 1 { 'C' }
    else if i == 2 { 'D' }
    else if i == 3 { 'F' }
    else if i == 4 { 'G' }
    else if i == 5 { 'T' }
    else if i == 6 { 'V' }
    else if i == 7 { 'X' }
    else if i == 8 { 'Y' }
    else { 'Z' }
}

/// The orbs of skill `i`, as (ice, light, fire).
pub open spec fn skill_combo(i: int) -> SkillCombo {
    if i == 0 { SkillCombo { ice: 1, light: 1, fire: 1 } }
    else if i == 1 { SkillCombo { ice: 0, light: 3, fire: 0 } }
    else if i == 2 { SkillCombo { ice: 0, light: 1, fire: 2 } }
    else if i == 3 { SkillCombo { ice: 1, light: 0, fire: 2 } }
    else if i == 4 { SkillCombo { ice: 2, light: 0, fire: 1 } }
    else if i == 5 { SkillCombo { ice: 0, light: 0, fire: 3 } }
    else if i == 6 { SkillCombo { ice: 2, light: 1, fire: 0 } }
    else if i == 7 { SkillCombo { ice: 1, light: 2, fire: 0 } }
    else if i == 8 { SkillCombo { ice: 3, light: 0, fire: 0 } }
    else { SkillCombo { ice: 0, light: 2, fire: 1 } }
}

/// The letter and orbs of skill `idx`.
pub fn skill_at(idx: usize) -> (skill: (char, SkillCombo))
    requires
        idx < SKILL_COUNT,
    ensures
        skill.0 == skill_letter(idx as int),
        skill.1 == skill_combo(idx as int),
{
    match idx {
        0 => ('B', SkillCombo { ice: 1, light: 1, fire: 1 }),
        1 => ('C', SkillCombo { ice: 0, light: 3, fire: 0 }),
        2 => ('D', SkillCombo { ice: 0, light: 1, fire: 2 }),
        3 => ('F', SkillCombo { ice: 1, light: 0, fire: 2 }),
        4 => ('G', SkillCombo { ice: 2, light: 0, fire: 1 }),
        5 => ('T', SkillCombo { ice: 0, light: 0, fire: 3 }),
        6 => ('V', SkillCombo { ice: 2, light: 1, fire: 0 }),
        7 => ('X', SkillCombo { ice: 1, light: 2, fire: 0 }),
        8 => ('Y', SkillCombo { ice: 3, light: 0, fire: 0 }),
        _ => ('Z', SkillCombo { ice: 0, light: 2, fire: 1 }),
    }
}

/// Every skill takes exactly three orbs.
pub proof fn lemma_skill_has_three_orbs(i: int)
    requires
        0 <= i < SKILL_COUNT,
    ensures
        skill_combo(i).ice + skill_combo(i).light + skill_combo(i).fire == 3,
{
}

/// No two skills share their orbs, nor their letter.
pub proof fn lemma_skills_distinct(i: int, j: int)
    requires
        0 <= i < SKILL_COUNT,
        0 <= j < SKILL_COUNT,
        i != j,
    ensures
        skill_combo(i) != skill_combo(j),
        skill_letter(i) != skill_letter(j),
{
}

/// Every way of choosing three orbs is a skill.
pub proof fn lemma_every_triple_is_a_skill(combo: SkillCombo)
    requires
        combo.ice + combo.light + combo.fire == 3,
    ensures
        exists|i: int| 0 <= i < SKILL_COUNT && #[trigger] skill_combo(i) == combo,
{
    let i: int = if combo.ice == 1 && combo.light == 1 { 0 }
        else if combo.light == 3 { 1 }
        else if combo.light == 1 && combo.fire == 2 { 2 }
        else if combo.ice == 1 && combo.fire == 2 { 3 }
        else if combo.ice == 2 && combo.fire == 1 { 4 }
        else if combo.fire == 3 { 5 }
        else if combo.ice == 2 && combo.light == 1 { 6 }
        else if combo.ice == 1 && combo.light == 2 { 7 }
        else if combo.ice == 3 { 8 }
        else { 9 };
    assert(skill_combo(i) == combo);
}

/// The count of a key over a concatenation is the sum of the counts.
pub proof fn lemma_count_concat(a: Seq<char>, b: Seq<char>, k: Key)
    ensures
        count_key(a + b, k) == count_key(a, k) + count_key(b, k),
    decreases b.len(),
{
    if b.len() == 0 {
        assert(a + b =~= a);
    } else {
        lemma_count_concat(a, b.drop_last(), k);
        assert((a + b).drop_last() =~= a + b.drop_last());
    }
}

proof fn lemma_count_single(x: char, k: Key)
    ensures
        count_key(seq![x], k) == if key_of(x) == k { 1nat } else { 0nat },
{
    assert(seq![x].drop_last() =~= Seq::<char>::empty());
    assert(seq![x].last() == x);
    assert(count_key(Seq::<char>::empty(), k) == 0);
}

proof fn lemma_attempt_keys_split(a: Seq<char>, b: Seq<char>)
    ensures
        (forall|i: int| 0 <= i < (a + b).len() ==> is_attempt_key(#[trigger] (a + b)[i])) <==> (
        (forall|i: int| 0 <= i < a.len() ==> is_attempt_key(#[trigger] a[i])) && (forall|i: int|
            0 <= i < b.len() ==> is_attempt_key(#[trigger] b[i]))),
{
    if forall|i: int| 0 <= i < (a + b).len() ==> is_attempt_key(#[trigger] (a + b)[i]) {
        assert forall|i: int| 0 <= i < a.len() implies is_attempt_key(#[trigger] a[i]) by {
            assert((a + b)[i] == a[i]);
        }
        assert forall|i: int| 0 <= i < b.len() implies is_attempt_key(#[trigger] b[i]) by {
            assert((a + b)[a.len() + i] == b[i]);
        }
    }
}

/// Pressing two keys in the other order does not change which skill an attempt invokes.
pub proof fn lemma_order_irrelevant(
    before: Seq<char>,
    x: char,
    y: char,
    after: Seq<char>,
    expected: SkillCombo,
)
    ensures
        invokes(before + seq![x, y] + after, expected) == invokes(
            before + seq![y, x] + after,
            expected,
        ),
{
    let xy = seq![x, y];
    let yx = seq![y, x];
    assert(xy =~= seq![x] + seq![y]);
    assert(yx =~= seq![y] + seq![x]);
    lemma_attempt_keys_split(before + xy, after);
    lemma_attempt_keys_split(before, xy);
    lemma_attempt_keys_split(before + yx, after);
    lemma_attempt_keys_split(before, yx);
    lemma_attempt_keys_split(seq![x], seq![y]);
    lemma_attempt_keys_split(seq![y], seq![x]);
    assert forall|k: Key| count_key(before + xy + after, k) == count_key(before + yx + after, k) by {
        lemma_count_concat(before + xy, after, k);
        lemma_count_concat(before, xy, k);
        lemma_count_concat(before + yx, after, k);
        lemma_count_concat(before, yx, k);
        lemma_count_concat(seq![x], seq![y], k);
        lemma_count_concat(seq![y], seq![x], k);
    }
    assert(count_key(before + xy + after, Key::Ice) == count_key(before + yx + after, Key::Ice));
    assert(count_key(before + xy + after, Key::Light) == count_key(before + yx + after, Key::Light));
    assert(count_key(before + xy + after, Key::Fire) == count_key(before + yx + after, Key::Fire));
}

/// Confirm keys inside an attempt change nothing about what it invokes.
pub proof fn lemma_confirm_key_ignored(before: Seq<char>, after: Seq<char>, expected: SkillCombo)
    ensures
        invokes(before + seq!['R'] + after, expected) == invokes(before + after, expected),
{
    lemma_attempt_keys_split(before + seq!['R'], after);
    lemma_attempt_keys_split(before, seq!['R']);
    lemma_attempt_keys_split(before, after);
    assert(is_attempt_key(seq!['R'][0]));
    assert forall|k: Key| #![trigger count_key(before + after, k)]
        k != Key::Confirm implies count_key(before + seq!['R'] + after, k) == count_key(
        before + after,
        k,
    ) by {
        lemma_count_concat(before + seq!['R'], after, k);
        lemma_count_concat(before, seq!['R'], k);
        lemma_count_concat(before, after, k);
        lemma_count_single('R', k);
    }
    assert(count_key(before + seq!['R'] + after, Key::Ice) == count_key(before + after, Key::Ice));
    assert(count_key(before + seq!['R'] + after, Key::Light) == count_key(before + after, Key::Light));
    assert(count_key(before + seq!['R'] + after, Key::Fire) == count_key(before + after, Key::Fire));
}

/// An attempt invokes at most one skill.
pub proof fn lemma_at_most_one_skill(s: Seq<char>, i: int, j: int)
    requires
        0 <= i < SKILL_COUNT,
        0 <= j < SKILL_COUNT,
        invokes(s, skill_combo(i)),
        invokes(s, skill_combo(j)),
    ensures
        i == j,
{
    if i != j {
        lemma_skills_distinct(i, j);
    }
}

/// The orbs of `combo` typed in the order ice, light, fire.
pub open spec fn orb_keys(combo: SkillCombo) -> Seq<char> {
    Seq::new(combo.ice as nat, |_i: int| 'Q') + Seq::new(combo.light as nat, |_i: int| 'W')
        + Seq::new(combo.fire as nat, |_i: int| 'E')
}

proof fn lemma_count_repeat(n: nat, c: char, k: Key)
    ensures
        count_key(Seq::new(n, |_i: int| c), k) == if key_of(c) == k { n } else { 0nat },
    decreases n,
{
    if n > 0 {
        lemma_count_repeat((n - 1) as nat, c, k);
        assert(Seq::new(n, |_i: int| c).drop_last() =~= Seq::new((n - 1) as nat, |_i: int| c));
    }
}

/// Typing the orbs of a skill invokes it: every requested skill can be done.
pub proof fn lemma_orb_keys_invoke(combo: SkillCombo)
    ensures
        invokes(orb_keys(combo), combo),
{
    let q = Seq::new(combo.ice as nat, |_i: int| 'Q');
    let w = Seq::new(combo.light as nat, |_i: int| 'W');
    let e = Seq::new(combo.fire as nat, |_i: int| 'E');
    assert forall|k: Key| #![trigger count_key(orb_keys(combo), k)]
        count_key(orb_keys(combo), k) == count_key(q, k) + count_key(w, k) + count_key(e, k) by {
        lemma_count_concat(q + w, e, k);
        lemma_count_concat(q, w, k);
    }
    lemma_count_repeat(combo.ice as nat, 'Q', Key::Ice);
    lemma_count_repeat(combo.light as nat, 'W', Key::Ice);
    lemma_count_repeat(combo.fire as nat, 'E', Key::Ice);
    lemma_count_repeat(combo.ice as nat, 'Q', Key::Light);
    lemma_count_repeat(combo.light as nat, 'W', Key::Light);
    lemma_count_repeat(combo.fire as nat, 'E', Key::Light);
    lemma_count_repeat(combo.ice as nat, 'Q', Key::Fire);
    lemma_count_repeat(combo.light as nat, 'W', Key::Fire);
    lemma_count_repeat(combo.fire as nat, 'E', Key::Fire);
    assert forall|i: int| 0 <= i < orb_keys(combo).len() implies is_attempt_key(
        #[trigger] orb_keys(combo)[i],
    ) by {
        if i < q.len() {
            assert(orb_keys(combo)[i] == 'Q');
        } else if i < q.len() + w.len() {
            assert(orb_keys(combo)[i] == 'W');
        } else {
            assert(orb_keys(combo)[i] == 'E');
        }
    }
}

/// The lower-case form of an ASCII letter; any other character is left as it is.
pub open spec fn ascii_lower(c: char) -> char {
    if 'A' <= c && c <= 'Z' {
        ((c as u32) + 32) as char
    } else {
        c
    }
}

/// Keys are read case-insensitively: a character means what its lower-case form means.
pub proof fn lemma_key_case_insensitive(c: char)
    ensures
        key_of(c) == key_of(ascii_lower(c)),
{
    if 'A' <= c && c <= 'Z' {
        let l = ascii_lower(c);
        assert(l as u32 == c as u32 + 32);
        assert(c == 'Q' <==> l == 'q');
        assert(c == 'W' <==> l == 'w');
        assert(c == 'E' <==> l == 'e');
        assert(c == 'R' <==> l == 'r');
        assert(c == 'N' <==> l == 'n');
        assert(l != 'Q' && l != 'W' && l != 'E' && l != 'R' && l != 'N');
    }
}

/// The five keys of the drill, by their lower-case letters: q, w, e are the
/// orbs, r confirms and n starts a new round; every other lower-case letter
/// and every digit means nothing.
pub proof fn lemma_key_letters(c: char)
    ensures
        key_of('q') == Key::Ice,
        key_of('w') == Key::Light,
        key_of('e') == Key::Fire,
        key_of('r') == Key::Confirm,
        key_of('n') == Key::NewRound,
        ('a' <= c && c <= 'z' && c != 'q' && c != 'w' && c != 'e' && c != 'r' && c != 'n')
            ==> key_of(c) == Key::Other,
        ('0' <= c && c <= '9') ==> key_of(c) == Key::Other,
{
}

/// An attempt invokes a skill exactly when it holds only orb and confirm keys
/// and its numbers of ice, light and fire keys are the skill's.
pub proof fn lemma_invokes_exact_orbs(s: Seq<char>, expected: SkillCombo)
    ensures
        invokes(s, expected) ==> count_key(s, Key::Ice) == expected.ice,
        invokes(s, expected) ==> count_key(s, Key::Light) == expected.light,
        invokes(s, expected) ==> count_key(s, Key::Fire) == expected.fire,
        invokes(s, expected) ==> forall|i: int| 0 <= i < s.len() ==> is_attempt_key(#[trigger] s[i]),
        ((forall|i: int| 0 <= i < s.len() ==> is_attempt_key(#[trigger] s[i]))
            && count_key(s, Key::Ice) == expected.ice && count_key(s, Key::Light)
            == expected.light && count_key(s, Key::Fire) == expected.fire) ==> invokes(s, expected),
{
}

/// If an attempt and a longer attempt that starts with it both invoke the same
/// skill, the keys added hold no orb: extra orbs are never accepted.
pub proof fn lemma_extra_orbs_rejected(s: Seq<char>, more: Seq<char>, expected: SkillCombo)
    requires
        invokes(s, expected),
        invokes(s + more, expected),
    ensures
        count_key(more, Key::Ice) == 0,
        count_key(more, Key::Light) == 0,
        count_key(more, Key::Fire) == 0,
{
    lemma_count_concat(s, more, Key::Ice);
    lemma_count_concat(s, more, Key::Light);
    lemma_count_concat(s, more, Key::Fire);
}

} // verus!
