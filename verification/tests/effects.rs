use card_test::{despawn_effect_system, effect_for_event, effect_system, EffectKind, EndedRunner};

#[test]
fn effect_for_event_reads_known_names() {
    assert_eq!(effect_for_event("small_boom"), Some(EffectKind::SmallBoom));
    assert_eq!(effect_for_event("boom"), Some(EffectKind::Boom));
    assert_eq!(effect_for_event("shark"), Some(EffectKind::Shark));
}

#[test]
fn effect_for_event_ignores_other_names() {
    assert_eq!(effect_for_event(""), None);
    assert_eq!(effect_for_event("Boom"), None);
    assert_eq!(effect_for_event("boom "), None);
}

#[test]
fn effect_system_keeps_event_order() {
    let events = vec![
        "shark".to_string(),
        "nothing".to_string(),
        "boom".to_string(),
        "small_boom".to_string(),
        "boom".to_string(),
    ];
    assert_eq!(
        effect_system(&events),
        vec![EffectKind::Shark, EffectKind::Boom, EffectKind::SmallBoom, EffectKind::Boom]
    );
    assert_eq!(effect_system(&vec![]), Vec::<EffectKind>::new());
}

#[test]
fn despawn_effect_system_removes_completed_effects() {
    let ended = vec![
        EndedRunner { runner: 1, completed: true, is_effect: true },
        EndedRunner { runner: 2, completed: false, is_effect: true },
        EndedRunner { runner: 3, completed: true, is_effect: false },
        EndedRunner { runner: 4, completed: true, is_effect: true },
    ];
    assert_eq!(despawn_effect_system(&ended), vec![1, 4]);
    assert_eq!(despawn_effect_system(&vec![]), Vec::<u64>::new());
}
