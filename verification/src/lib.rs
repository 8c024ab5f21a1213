//! Game rules of a card table: card catalogue, pointer interaction with the
//! cards on the table, the layout order of the hand, the long-press preview
//! and the bookkeeping of effect animations.
use vstd::prelude::*;

pub mod card_info;
pub mod cards;
pub mod hands;
pub mod preview_plugins;

verus! {

/// A visual effect that an animation event asks for.
#[derive(Clone, Copy, Debug, PartialEq, Eq, Structural)]
pub enum EffectKind {
    /// A short, small ring burst.
    SmallBoom,
    /// A large ring burst.
    Boom,
    /// A shake of the main camera.
    Shark,
}

/// The effect named by an animation event; other names ask for nothing.
pub open spec fn effect_named(name: Seq<char>) -> Option<EffectKind> {
    if name == "small_boom"@ {
        Some(EffectKind::SmallBoom)
    } else if name == "boom"@ {
        Some(EffectKind::Boom)
    } else if name == "shark"@ {
        Some(EffectKind::Shark)
    } else {
        None
    }
}

/// Reads the effect that an animation event names.
pub fn effect_for_event(name: &str) -> (kind: Option<EffectKind>)
    ensures
        kind == effect_named(name@),
        name@ == "small_boom"@ ==> kind == Some(EffectKind::SmallBoom),
        name@ == "boom"@ ==> kind == Some(EffectKind::Boom),
        name@ == "shark"@ ==> kind == Some(EffectKind::Shark),
        name@ != "small_boom"@ && name@ != "boom"@ && name@ != "shark"@ ==> kind is None,
{
    proof {
        lemma_effect_names();
    }
    let name = name.to_owned();
    if name == "small_boom".to_owned() {
        Some(EffectKind::SmallBoom)
    } else if name == "boom".to_owned() {
        Some(EffectKind::Boom)
    } else if name == "shark".to_owned() {
        Some(EffectKind::Shark)
    } else {
        None
    }
}

/// The effects asked for by a frame's animation events, in event order.
pub open spec fn effects_named(names: Seq<Seq<char>>) -> Seq<EffectKind>
    decreases names.len(),
{
    if names.len() == 0 {
        Seq::empty()
    } else {
        let rest = effects_named(names.drop_last());
        match effect_named(names.last()) {
            Some(kind) => rest.push(kind),
            None => rest,
        }
    }
}

/// The effects to start for the animation events of a frame, in order;
/// events that name no effect are passed over.
pub fn effect_system(events: &Vec<String>) -> (kinds: Vec<EffectKind>)
    ensures
        kinds@ == effects_named(events@.map_values(|e: String| e@)),
        kinds@.len() <= events@.len(),
        forall|k: EffectKind| #[trigger]
            kinds@.contains(k) ==> exists|i: int|
                0 <= i < events@.len() && effect_named(events@[i]@) == Some(k),
        forall|i: int|
            0 <= i < events@.len() && #[trigger] effect_named(events@[i]@) is Some ==> kinds@.contains(
                effect_named(events@[i]@).unwrap(),
            ),
{
    let ghost names = events@.map_values(|e: String| e@);
    let mut kinds: Vec<EffectKind> = Vec::new();
    let n = events.len();
    let mut i: usize = 0;
    while i < n
        invariant
            n == events.len(),
            i <= n,
            names == events@.map_values(|e: String| e@),
            kinds@ == effects_named(names.take(i as int)),
        decreases n - i,
    {
        assert(names.take(i + 1).drop_last() == names.take(i as int));
        assert(names.take(i + 1).last() == events@[i as int]@);
        if let Some(kind) = effect_for_event(events[i].as_str()) {
            kinds.push(kind);
        }
        i = i + 1;
    }
    assert(names.take(n as int) == names);
    proof {
        lemma_effects_come_from_events(names);
        assert forall|k: EffectKind| #[trigger] kinds@.contains(k) implies exists|i: int|
            0 <= i < events@.len() && effect_named(events@[i]@) == Some(k) by {
            let i = choose|i: int| 0 <= i < names.len() && effect_named(names[i]) == Some(k);
            assert(names[i] == events@[i]@);
        }
        assert forall|i: int|
            0 <= i < events@.len() && #[trigger] effect_named(events@[i]@) is Some implies kinds@.contains(
            effect_named(events@[i]@).unwrap(),
        ) by {
            assert(names[i] == events@[i]@);
        }
    }
    kinds
}

/// An animation runner that ended this frame: its entity, whether it ran to
/// its end, and whether it belongs to an effect.
#[derive(Clone, Copy, Debug, PartialEq, Eq, Structural)]
pub struct EndedRunner {
    pub runner: u64,
    pub completed: bool,
    pub is_effect: bool,
}

/// The effect entities whose animation has completed, in order.
pub open spec fn completed_effects(ended: Seq<EndedRunner>) -> Seq<u64>
    decreases ended.len(),
{
    if ended.len() == 0 {
        Seq::empty()
    } else {
        let rest = completed_effects(ended.drop_last());
        if ended.last().completed && ended.last().is_effect {
            rest.push(ended.last().runner)
        } else {
            rest
        }
    }
}

/// The effect entities to remove: those whose animation ran to its end.
pub fn despawn_effect_system(ended: &Vec<EndedRunner>) -> (gone: Vec<u64>)
    ensures
        gone@ == completed_effects(ended@),
        gone@.len() <= ended@.len(),
        forall|x: u64| #[trigger]
            gone@.contains(x) ==> exists|i: int|
                0 <= i < ended@.len() && ended@[i].runner == x && ended@[i].completed
                    && ended@[i].is_effect,
        forall|i: int|
            0 <= i < ended@.len() && ended@[i].completed && ended@[i].is_effect ==> gone@.contains(
                #[trigger] ended@[i].runner,
            ),
{
    proof {
        lemma_removed_effects_are_completed_effects(ended@);
    }
    let mut gone: Vec<u64> = Vec::new();
    let n = ended.len();
    let mut i: usize = 0;
    while i < n
        invariant
            n == ended.len(),
            i <= n,
            gone@ == completed_effects(ended@.take(i as int)),
        decreases n - i,
    {
        assert(ended@.take(i + 1).drop_last() == ended@.take(i as int));
        let e = ended[i];
        if e.completed && e.is_effect {
            gone.push(e.runner);
        }
        i = i + 1;
    }
    assert(ended@.take(n as int) == ended@);
    gone
}

/// Only effects whose animation ran to its end are removed, and every one of
/// them is: an entity is removed exactly when some ended runner with that
/// entity both completed and is an effect; nothing else is removed, and no
/// more entities are removed than runners ended.
pub proof fn lemma_removed_effects_are_completed_effects(ended: Seq<EndedRunner>)
    ensures
        completed_effects(ended).len() <= ended.len(),
        forall|x: u64| #[trigger]
            completed_effects(ended).contains(x) <==> exists|i: int|
                0 <= i < ended.len() && ended[i].runner == x && ended[i].completed && ended[i].is_effect,
    decreases ended.len(),
{
    if ended.len() > 0 {
        let rest = ended.drop_last();
        lemma_removed_effects_are_completed_effects(rest);
        let last = ended.last();
        assert forall|x: u64| #[trigger]
            completed_effects(ended).contains(x) <==> exists|i: int|
                0 <= i < ended.len() && ended[i].runner == x && ended[i].completed
                    && ended[i].is_effect by {
            if completed_effects(ended).contains(x) {
                if completed_effects(rest).contains(x) {
                    let i = choose|i: int|
                        0 <= i < rest.len() && rest[i].runner == x && rest[i].completed
                            && rest[i].is_effect;
                    assert(ended[i] == rest[i]);
                } else {
                    assert(last.completed && last.is_effect);
                    let s = completed_effects(rest);
                    assert(completed_effects(ended) == s.push(last.runner));
                    let p = choose|p: int| 0 <= p < s.len() + 1 && s.push(last.runner)[p] == x;
                    if p < s.len() {
                        assert(s.contains(x));
                    }
                    assert(ended[ended.len() - 1] == last);
                }
            }
            if exists|i: int|
                0 <= i < ended.len() && ended[i].runner == x && ended[i].completed
                    && ended[i].is_effect {
                let i = choose|i: int|
                    0 <= i < ended.len() && ended[i].runner == x && ended[i].completed
                        && ended[i].is_effect;
                if i < ended.len() - 1 {
                    assert(rest[i] == ended[i]);
                    assert(completed_effects(rest).contains(x));
                    let s = completed_effects(rest);
                    let p = choose|p: int| 0 <= p < s.len() && s[p] == x;
                    if last.completed && last.is_effect {
                        assert(s.push(last.runner)[p] == x);
                    }
                } else {
                    let s = completed_effects(rest);
                    assert(s.push(last.runner)[s.len() as int] == x);
                }
            }
        }
    }
}

proof fn lemma_effect_names_differ()
    ensures
        "small_boom"@ != "boom"@,
        "small_boom"@ != "shark"@,
        "boom"@ != "shark"@,
{
    reveal_strlit("small_boom");
    reveal_strlit("boom");
    reveal_strlit("shark");
    assert("small_boom"@.len() != "boom"@.len());
    assert("small_boom"@.len() != "shark"@.len());
    assert("boom"@.len() != "shark"@.len());
}

/// Exactly three event names ask for an effect: "small_boom" for the small
/// burst, "boom" for the large burst and "shark" for the camera shake; any
/// other name asks for nothing.
pub proof fn lemma_effect_names()
    ensures
        effect_named("small_boom"@) == Some(EffectKind::SmallBoom),
        effect_named("boom"@) == Some(EffectKind::Boom),
        effect_named("shark"@) == Some(EffectKind::Shark),
        forall|name: Seq<char>|
            name != "small_boom"@ && name != "boom"@ && name != "shark"@ ==> #[trigger] effect_named(
                name,
            ) is None,
{
    lemma_effect_names_differ();
}

/// The effects of a frame are those its events name: each one started is
/// named by some event, each event that names an effect starts it, and no
/// more effects start than there are events.
pub proof fn lemma_effects_come_from_events(names: Seq<Seq<char>>)
    ensures
        effects_named(names).len() <= names.len(),
        forall|k: EffectKind| #[trigger]
            effects_named(names).contains(k) <==> exists|i: int|
                0 <= i < names.len() && effect_named(names[i]) == Some(k),
    decreases names.len(),
{
    broadcast use vstd::seq_lib::lemma_seq_contains_after_push;

    if names.len() > 0 {
        let rest = names.drop_last();
        lemma_effects_come_from_events(rest);
        assert forall|k: EffectKind| #[trigger]
            effects_named(names).contains(k) <==> exists|i: int|
                0 <= i < names.len() && effect_named(names[i]) == Some(k) by {
            if effects_named(rest).contains(k) {
                let i = choose|i: int| 0 <= i < rest.len() && effect_named(rest[i]) == Some(k);
                assert(names[i] == rest[i]);
            }
            if exists|i: int| 0 <= i < names.len() && effect_named(names[i]) == Some(k) {
                let i = choose|i: int| 0 <= i < names.len() && effect_named(names[i]) == Some(k);
                if i < names.len() - 1 {
                    assert(rest[i] == names[i]);
                }
            }
        }
    }
}

} // verus!
