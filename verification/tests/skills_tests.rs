use kael_skills::skills::{check_skill, classify_key, skill_at, Key, SkillCombo, SKILL_COUNT};

fn combo(ice: u8, light: u8, fire: u8) -> SkillCombo {
    SkillCombo { ice, light, fire }
}

#[test]
fn check_skill_accepts_exact_orbs() {
    assert!(check_skill("qwe", combo(1, 1, 1)));
    assert!(check_skill("QWE", combo(1, 1, 1)));
    assert!(check_skill("www", combo(0, 3, 0)));
    assert!(check_skill("eee", combo(0, 0, 3)));
}

#[test]
fn check_skill_ignores_order_and_case() {
    assert!(check_skill("ewq", combo(1, 1, 1)));
    assert!(check_skill("eQw", combo(1, 1, 1)));
    assert!(check_skill("EqE", combo(1, 0, 2)));
    assert!(check_skill("qEe", combo(1, 0, 2)));
}

#[test]
fn check_skill_ignores_confirm_keys() {
    assert!(check_skill("qweR", combo(1, 1, 1)));
    assert!(check_skill("rqrwre", combo(1, 1, 1)));
    assert!(check_skill("", combo(0, 0, 0)));
    assert!(check_skill("rr", combo(0, 0, 0)));
}

#[test]
fn check_skill_rejects_wrong_counts() {
    assert!(!check_skill("qqw", combo(1, 1, 1)));
    assert!(!check_skill("qw", combo(1, 1, 1)));
    assert!(!check_skill("qwee", combo(1, 1, 1)));
    assert!(!check_skill("", combo(1, 1, 1)));
}

#[test]
fn check_skill_rejects_other_keys() {
    assert!(!check_skill("qwex", combo(1, 1, 1)));
    assert!(!check_skill("nqwe", combo(1, 1, 1)));
    assert!(!check_skill("q we", combo(1, 1, 1)));
    assert!(!check_skill("qwé", combo(1, 1, 0)));
}

#[test]
fn check_skill_many_orbs() {
    let long: String = std::iter::repeat('q').take(300).collect();
    assert!(!check_skill(&long, combo(3, 0, 0)));
    assert!(!check_skill(&long, combo(44, 0, 0)));
}

#[test]
fn classify_key_both_cases() {
    assert_eq!(classify_key('q'), Key::Ice);
    assert_eq!(classify_key('Q'), Key::Ice);
    assert_eq!(classify_key('w'), Key::Light);
    assert_eq!(classify_key('E'), Key::Fire);
    assert_eq!(classify_key('r'), Key::Confirm);
    assert_eq!(classify_key('N'), Key::NewRound);
    assert_eq!(classify_key('x'), Key::Other);
    assert_eq!(classify_key('1'), Key::Other);
}

#[test]
fn skill_table() {
    let expected = [
        ('B', combo(1, 1, 1)),
        ('C', combo(0, 3, 0)),
        ('D', combo(0, 1, 2)),
        ('F', combo(1, 0, 2)),
        ('G', combo(2, 0, 1)),
        ('T', combo(0, 0, 3)),
        ('V', combo(2, 1, 0)),
        ('X', combo(1, 2, 0)),
        ('Y', combo(3, 0, 0)),
        ('Z', combo(0, 2, 1)),
    ];
    assert_eq!(SKILL_COUNT, 10);
    for (i, e) in expected.iter().enumerate() {
        assert_eq!(skill_at(i), *e);
    }
}

#[test]
fn skills_take_three_distinct_orb_sets() {
    for i in 0..SKILL_COUNT {
        let (_, c) = skill_at(i);
        assert_eq!(c.ice + c.light + c.fire, 3);
        for j in 0..SKILL_COUNT {
            if i != j {
                assert_ne!(skill_at(i).1, skill_at(j).1);
                assert_ne!(skill_at(i).0, skill_at(j).0);
            }
        }
    }
}

#[test]
fn each_input_invokes_at_most_one_skill() {
    for input in ["qwe", "qqq", "wwe", "eeq", "qq", "qwer", "x"] {
        let hits = (0..SKILL_COUNT).filter(|&i| check_skill(input, skill_at(i).1)).count();
        assert!(hits <= 1);
    }
    assert_eq!((0..SKILL_COUNT).filter(|&i| check_skill("weq", skill_at(i).1)).count(), 1);
}

#[test]
fn typing_orbs_of_each_skill_invokes_it() {
    for i in 0..SKILL_COUNT {
        let (_, c) = skill_at(i);
        let mut s = String::new();
        s.push_str(&"Q".repeat(c.ice as usize));
        s.push_str(&"W".repeat(c.light as usize));
        s.push_str(&"E".repeat(c.fire as usize));
        assert!(check_skill(&s, c));
    }
}
