//! How a card on the table answers the pointer: hovering lifts it, leaving
//! lowers it back, dragging makes it follow the cursor and then return home,
//! and dropping it on a field zone asks whether to put it there. A card that
//! has been put on the field ("set") no longer answers the pointer.
use vstd::prelude::*;

verus! {

/// What the table records on a card: whether it is being dragged, and
/// whether it has been put on the field.
#[derive(Clone, Copy, Debug, PartialEq, Eq, Structural)]
pub struct CardFlags {
    pub dragging: bool,
    pub setted: bool,
}

/// A pointer event that reaches a card.
#[derive(Clone, Copy, Debug, PartialEq, Eq, Structural)]
pub enum PointerEvent {
    /// The pointer enters the card.
    Over,
    /// The pointer leaves the card.
    Out,
    /// A drag of the card begins.
    DragStart,
    /// The card is dragged on.
    Drag,
    /// The drag ends.
    DragEnd,
    /// The card is dropped on a field zone.
    Drop,
    /// The player confirms that the dropped card goes to the zone.
    Confirm,
}

/// How the card moves in answer.
#[derive(Clone, Copy, Debug, PartialEq, Eq, Structural)]
pub enum CardMotion {
    /// It does not move.
    Stay,
    /// It is lifted above the hand.
    Lift,
    /// It goes back to its home position.
    ReturnHome,
    /// It follows the cursor on the table plane.
    FollowCursor,
    /// The player is asked whether to put it on the zone.
    AskToSet,
    /// It travels to the zone, which becomes its home.
    MoveToZone,
}

/// The answer to an event: the card's new flags (`None` when the event did
/// not reach a card) and its motion.
#[derive(Clone, Copy, Debug, PartialEq, Eq, Structural)]
pub struct CardReaction {
    pub card: Option<CardFlags>,
    pub motion: CardMotion,
}

/// The card is on the table, in the hand, and not held.
pub open spec fn is_free(card: Option<CardFlags>) -> bool {
    card matches Some(f) && !f.setted && !f.dragging
}

/// The card is on the table and not on the field.
pub open spec fn is_unset(card: Option<CardFlags>) -> bool {
    card matches Some(f) && !f.setted
}

/// The card's answer to a pointer event. `card` is `None` when the event
/// lands on something that is not part of a card.
pub open spec fn card_step(card: Option<CardFlags>, event: PointerEvent) -> CardReaction {
    match event {
        PointerEvent::Over => CardReaction {
            card,
            motion: if is_free(card) { CardMotion::Lift } else { CardMotion::Stay },
        },
        PointerEvent::Out => CardReaction {
            card,
            motion: if is_free(card) { CardMotion::ReturnHome } else { CardMotion::Stay },
        },
        PointerEvent::DragStart => if is_unset(card) {
            CardReaction {
                card: Some(CardFlags { dragging: true, setted: false }),
                motion: CardMotion::Stay,
            }
        } else {
            CardReaction { card, motion: CardMotion::Stay }
        },
        PointerEvent::Drag => CardReaction {
            card,
            motion: if is_unset(card) { CardMotion::FollowCursor } else { CardMotion::Stay },
        },
        PointerEvent::DragEnd => if is_unset(card) {
            CardReaction {
                card: Some(CardFlags { dragging: false, setted: false }),
                motion: CardMotion::ReturnHome,
            }
        } else {
            CardReaction { card, motion: CardMotion::Stay }
        },
        PointerEvent::Drop => CardReaction {
            card,
            motion: if is_unset(card) { CardMotion::AskToSet } else { CardMotion::Stay },
        },
        PointerEvent::Confirm => match card {
            Some(f) => CardReaction {
                card: Some(CardFlags { dragging: f.dragging, setted: true }),
                motion: CardMotion::MoveToZone,
            },
            None => CardReaction { card, motion: CardMotion::Stay },
        },
    }
}

fn free(card: Option<CardFlags>) -> (r: bool)
    ensures
        r == is_free(card),
{
    match card {
        Some(f) => !f.setted && !f.dragging,
        None => false,
    }
}

fn unset(card: Option<CardFlags>) -> (r: bool)
    ensures
        r == is_unset(card),
{
    match card {
        Some(f) => !f.setted,
        None => false,
    }
}

/// The pointer enters a part of a card: a free card is lifted.
pub fn over_card(card: Option<CardFlags>) -> (r: CardReaction)
    ensures
        r == card_step(card, PointerEvent::Over),
        r.card == card,
        r.motion == CardMotion::Lift || r.motion == CardMotion::Stay,
        r.motion == CardMotion::Lift <==> (card matches Some(f) && !f.dragging && !f.setted),
{
    let motion = if free(card) { CardMotion::Lift } else { CardMotion::Stay };
    CardReaction { card, motion }
}

/// The pointer leaves a part of a card: a free card goes back home.
pub fn out_card(card: Option<CardFlags>) -> (r: CardReaction)
    ensures
        r == card_step(card, PointerEvent::Out),
        r.card == card,
        r.motion == CardMotion::ReturnHome || r.motion == CardMotion::Stay,
        r.motion == CardMotion::ReturnHome <==> (card matches Some(f) && !f.dragging && !f.setted),
{
    let motion = if free(card) { CardMotion::ReturnHome } else { CardMotion::Stay };
    CardReaction { card, motion }
}

/// The answer to the start of a drag on a part of a card: the part stops
/// taking the pointer when it is the card's face, and a card not on the
/// field is marked as dragged.
pub struct DragStartReaction {
    pub ignore_picking: bool,
    pub reaction: CardReaction,
}

/// A drag begins on a part of a card; `target_is_face` tells whether that
/// part is the card's face.
pub fn drag_start(target_is_face: bool, card: Option<CardFlags>) -> (r: DragStartReaction)
    ensures
        r.ignore_picking == target_is_face,
        r.reaction == card_step(card, PointerEvent::DragStart),
        r.reaction.motion == CardMotion::Stay,
        (card matches Some(f) && !f.setted) ==> r.reaction.card == Some(
            CardFlags { dragging: true, setted: false },
        ),
        !(card matches Some(f) && !f.setted) ==> r.reaction.card == card,
{
    let reaction = if unset(card) {
        CardReaction {
            card: Some(CardFlags { dragging: true, setted: false }),
            motion: CardMotion::Stay,
        }
    } else {
        CardReaction { card, motion: CardMotion::Stay }
    };
    DragStartReaction { ignore_picking: target_is_face, reaction }
}

/// The card is dragged on: a card not on the field follows the cursor.
pub fn move_on_drag(card: Option<CardFlags>) -> (r: CardReaction)
    ensures
        r == card_step(card, PointerEvent::Drag),
        r.card == card,
        r.motion == CardMotion::FollowCursor || r.motion == CardMotion::Stay,
        r.motion == CardMotion::FollowCursor <==> (card matches Some(f) && !f.setted),
{
    let motion = if unset(card) { CardMotion::FollowCursor } else { CardMotion::Stay };
    CardReaction { card, motion }
}

/// The drag ends: a card not on the field is no longer dragged and goes
/// back home.
pub fn drag_end(card: Option<CardFlags>) -> (r: CardReaction)
    ensures
        r == card_step(card, PointerEvent::DragEnd),
        (card matches Some(f) && !f.setted) ==> r == (CardReaction {
            card: Some(CardFlags { dragging: false, setted: false }),
            motion: CardMotion::ReturnHome,
        }),
        !(card matches Some(f) && !f.setted) ==> r == (CardReaction {
            card,
            motion: CardMotion::Stay,
        }),
{
    if unset(card) {
        CardReaction {
            card: Some(CardFlags { dragging: false, setted: false }),
            motion: CardMotion::ReturnHome,
        }
    } else {
        CardReaction { card, motion: CardMotion::Stay }
    }
}

/// A part of a card is dropped on a field zone: for a card not on the field
/// the player is asked whether to put it there.
pub fn deal_on_drop(card: Option<CardFlags>) -> (r: CardReaction)
    ensures
        r == card_step(card, PointerEvent::Drop),
        r.card == card,
        r.motion == CardMotion::AskToSet || r.motion == CardMotion::Stay,
        r.motion == CardMotion::AskToSet <==> (card matches Some(f) && !f.setted),
{
    let motion = if unset(card) { CardMotion::AskToSet } else { CardMotion::Stay };
    CardReaction { card, motion }
}

/// The player confirms: the card goes to the zone and is on the field.
pub fn confirm_drop(card: CardFlags) -> (r: CardReaction)
    ensures
        r == card_step(Some(card), PointerEvent::Confirm),
        r.card == Some(CardFlags { dragging: card.dragging, setted: true }),
        r.motion == CardMotion::MoveToZone,
{
    CardReaction {
        card: Some(CardFlags { dragging: card.dragging, setted: true }),
        motion: CardMotion::MoveToZone,
    }
}

/// How a card on the table answers each pointer event. Hovering lifts, and
/// leaving sends home, only a card that is neither dragged nor on the field;
/// a drag marks a card not on the field as dragged and makes it follow the
/// cursor; ending the drag clears the mark and sends it home; a drop on a
/// zone asks about a card not on the field; a confirmation puts the card on
/// the field and sends it to the zone. Every other answer leaves the card
/// where it is with its flags unchanged.
pub proof fn lemma_pointer_answers(f: CardFlags)
    ensures
        card_step(Some(f), PointerEvent::Over) == (CardReaction {
            card: Some(f),
            motion: if !f.dragging && !f.setted { CardMotion::Lift } else { CardMotion::Stay },
        }),
        card_step(Some(f), PointerEvent::Out) == (CardReaction {
            card: Some(f),
            motion: if !f.dragging && !f.setted { CardMotion::ReturnHome } else { CardMotion::Stay },
        }),
        card_step(Some(f), PointerEvent::DragStart) == (CardReaction {
            card: Some(CardFlags { dragging: f.dragging || !f.setted, setted: f.setted }),
            motion: CardMotion::Stay,
        }),
        card_step(Some(f), PointerEvent::Drag) == (CardReaction {
            card: Some(f),
            motion: if !f.setted { CardMotion::FollowCursor } else { CardMotion::Stay },
        }),
        card_step(Some(f), PointerEvent::DragEnd) == (CardReaction {
            card: Some(CardFlags { dragging: f.dragging && f.setted, setted: f.setted }),
            motion: if !f.setted { CardMotion::ReturnHome } else { CardMotion::Stay },
        }),
        card_step(Some(f), PointerEvent::Drop) == (CardReaction {
            card: Some(f),
            motion: if !f.setted { CardMotion::AskToSet } else { CardMotion::Stay },
        }),
        card_step(Some(f), PointerEvent::Confirm) == (CardReaction {
            card: Some(CardFlags { dragging: f.dragging, setted: true }),
            motion: CardMotion::MoveToZone,
        }),
{
}

/// Once on the field, a card stays on the field, whatever reaches it.
pub proof fn lemma_setted_stays_setted(card: CardFlags, event: PointerEvent)
    requires
        card.setted,
    ensures
        card_step(Some(card), event).card matches Some(f) && f.setted,
{
}

/// A card on the field ignores the pointer: every event but a confirmation
/// leaves it where it is, with its flags unchanged.
pub proof fn lemma_setted_card_ignores_pointer(card: CardFlags, event: PointerEvent)
    requires
        card.setted,
        event != PointerEvent::Confirm,
    ensures
        card_step(Some(card), event) == (CardReaction { card: Some(card), motion: CardMotion::Stay }),
{
}

/// Hovering does nothing to a dragged card.
pub proof fn lemma_no_hover_while_dragging(card: CardFlags)
    requires
        card.dragging,
    ensures
        card_step(Some(card), PointerEvent::Over).motion == CardMotion::Stay,
        card_step(Some(card), PointerEvent::Out).motion == CardMotion::Stay,
{
}

/// Dragging a free card and letting it go without a confirmation brings it
/// back home with the flags it had.
pub proof fn lemma_drag_round_trip(card: CardFlags)
    requires
        !card.setted,
        !card.dragging,
    ensures
        card_step(card_step(Some(card), PointerEvent::DragStart).card, PointerEvent::DragEnd)
            == (CardReaction { card: Some(card), motion: CardMotion::ReturnHome }),
{
}

/// Events that do not land on a card change nothing.
pub proof fn lemma_no_card_no_reaction(event: PointerEvent)
    ensures
        card_step(None, event) == (CardReaction { card: None, motion: CardMotion::Stay }),
{
}

/// A child of a finished animation runner, and whether it is a tween.
#[derive(Clone, Copy, Debug, PartialEq, Eq, Structural)]
pub struct RunnerChild {
    pub entity: u64,
    pub is_tween: bool,
}

/// An animation runner that finished this frame: whether it was asked to
/// clear its tweens when it finishes, and its children if it has any.
pub struct FinishedRunner {
    pub clear_on_finish: bool,
    pub children: Option<Vec<RunnerChild>>,
}

/// The tweens among some children, in order.
pub open spec fn tweens_of(children: Seq<RunnerChild>) -> Seq<u64>
    decreases children.len(),
{
    if children.len() == 0 {
        Seq::empty()
    } else {
        let rest = tweens_of(children.drop_last());
        if children.last().is_tween {
            rest.push(children.last().entity)
        } else {
            rest
        }
    }
}

/// The tweens that one finished runner leaves to be removed.
pub open spec fn cleared_by(runner: FinishedRunner) -> Seq<u64> {
    match runner.children {
        Some(children) if runner.clear_on_finish => tweens_of(children@),
        _ => Seq::empty(),
    }
}

/// The tweens that finished runners leave to be removed, runner by runner.
pub open spec fn cleared_tweens(runners: Seq<FinishedRunner>) -> Seq<u64>
    decreases runners.len(),
{
    if runners.len() == 0 {
        Seq::empty()
    } else {
        cleared_tweens(runners.drop_last()) + cleared_by(runners.last())
    }
}

/// The tween entities to remove when animation runners finish: for each
/// runner marked to clear on finish, its children that are tweens.
pub fn clear_on_finish_system(finished: &Vec<FinishedRunner>) -> (gone: Vec<u64>)
    ensures
        gone@ == cleared_tweens(finished@),
        forall|i: int, j: int|
            is_cleared_child(finished@, i, j) ==> gone@.contains(
                #[trigger] cleared_child(finished@, i, j),
            ),
        forall|x: u64| #[trigger]
            gone@.contains(x) ==> exists|i: int, j: int|
                is_cleared_child(finished@, i, j) && cleared_child(finished@, i, j) == x,
{
    proof {
        lemma_cleared_are_tween_children(finished@);
    }
    let mut gone: Vec<u64> = Vec::new();
    let n = finished.len();
    let mut i: usize = 0;
    while i < n
        invariant
            n == finished.len(),
            i <= n,
            gone@ == cleared_tweens(finished@.take(i as int)),
        decreases n - i,
    {
        assert(finished@.take(i + 1).drop_last() == finished@.take(i as int));
        let runner = &finished[i];
        if runner.clear_on_finish {
            if let Some(children) = &runner.children {
                let ghost start = gone@;
                let m = children.len();
                let mut j: usize = 0;
                while j < m
                    invariant
                        m == children.len(),
                        j <= m,
                        gone@ == start + tweens_of(children@.take(j as int)),
                    decreases m - j,
                {
                    assert(children@.take(j + 1).drop_last() == children@.take(j as int));
                    let child = children[j];
                    if child.is_tween {
                        gone.push(child.entity);
                    }
                    j = j + 1;
                }
                assert(children@.take(m as int) == children@);
            }
        }
        i = i + 1;
    }
    assert(finished@.take(n as int) == finished@);
    gone
}

/// Child `j` of runner `i` is a tween of a runner marked to clear on finish.
pub open spec fn is_cleared_child(runners: Seq<FinishedRunner>, i: int, j: int) -> bool {
    &&& 0 <= i < runners.len()
    &&& runners[i].clear_on_finish
    &&& runners[i].children matches Some(children)
    &&& 0 <= j < children@.len()
    &&& children@[j].is_tween
}

/// The entity of child `j` of runner `i`.
pub open spec fn cleared_child(runners: Seq<FinishedRunner>, i: int, j: int) -> u64 {
    runners[i].children.unwrap()@[j].entity
}

/// The tweens taken from some children are exactly the children that are
/// tweens, in their order.
pub proof fn lemma_tweens_are_the_tween_children(children: Seq<RunnerChild>)
    ensures
        tweens_of(children) == children.filter(|c: RunnerChild| c.is_tween).map_values(
            |c: RunnerChild| c.entity,
        ),
    decreases children.len(),
{
    reveal_with_fuel(Seq::<RunnerChild>::filter, 1);
    if children.len() > 0 {
        let rest = children.drop_last();
        lemma_tweens_are_the_tween_children(rest);
        let kept = rest.filter(|c: RunnerChild| c.is_tween);
        if children.last().is_tween {
            assert(kept.push(children.last()).map_values(|c: RunnerChild| c.entity) =~= kept.map_values(
                |c: RunnerChild| c.entity,
            ).push(children.last().entity));
        }
    }
}

/// An entity is among the tweens of some children exactly when one of the
/// children is a tween with that entity.
pub proof fn lemma_tween_members(children: Seq<RunnerChild>)
    ensures
        forall|x: u64| #[trigger]
            tweens_of(children).contains(x) <==> exists|j: int|
                0 <= j < children.len() && children[j].is_tween && children[j].entity == x,
    decreases children.len(),
{
    broadcast use vstd::seq_lib::lemma_seq_contains_after_push;

    if children.len() > 0 {
        let rest = children.drop_last();
        lemma_tween_members(rest);
        assert forall|x: u64| #[trigger]
            tweens_of(children).contains(x) <==> exists|j: int|
                0 <= j < children.len() && children[j].is_tween && children[j].entity == x by {
            if exists|j: int| 0 <= j < children.len() && children[j].is_tween && children[j].entity == x {
                let j = choose|j: int|
                    0 <= j < children.len() && children[j].is_tween && children[j].entity == x;
                if j < children.len() - 1 {
                    assert(rest[j] == children[j]);
                }
            }
            if tweens_of(rest).contains(x) {
                let j = choose|j: int| 0 <= j < rest.len() && rest[j].is_tween && rest[j].entity == x;
                assert(children[j] == rest[j]);
            }
        }
    }
}

/// When animation runners finish, an entity is removed exactly when it is a
/// tween child of a runner marked to clear on finish: every such tween goes,
/// and nothing else does.
pub proof fn lemma_cleared_are_tween_children(runners: Seq<FinishedRunner>)
    ensures
        forall|x: u64| #[trigger]
            cleared_tweens(runners).contains(x) <==> exists|i: int, j: int|
                is_cleared_child(runners, i, j) && cleared_child(runners, i, j) == x,
    decreases runners.len(),
{
    broadcast use vstd::seq_lib::lemma_seq_concat_contains_all_elements;

    if runners.len() > 0 {
        let rest = runners.drop_last();
        let n = runners.len() - 1;
        lemma_cleared_are_tween_children(rest);
        let last = runners.last();
        assert(runners[n] == last);
        if let Some(children) = last.children {
            lemma_tween_members(children@);
        }
        assert forall|x: u64| #[trigger]
            cleared_tweens(runners).contains(x) <==> exists|i: int, j: int|
                is_cleared_child(runners, i, j) && cleared_child(runners, i, j) == x by {
            if cleared_tweens(rest).contains(x) {
                let (i, j) = choose|i: int, j: int|
                    is_cleared_child(rest, i, j) && cleared_child(rest, i, j) == x;
                assert(runners[i] == rest[i]);
                assert(is_cleared_child(runners, i, j) && cleared_child(runners, i, j) == x);
            }
            if cleared_by(last).contains(x) {
                let children = last.children.unwrap();
                let j = choose|j: int|
                    0 <= j < children@.len() && children@[j].is_tween && children@[j].entity == x;
                assert(is_cleared_child(runners, n, j) && cleared_child(runners, n, j) == x);
            }
            if exists|i: int, j: int| is_cleared_child(runners, i, j) && cleared_child(runners, i, j) == x {
                let (i, j) = choose|i: int, j: int|
                    is_cleared_child(runners, i, j) && cleared_child(runners, i, j) == x;
                if i < n {
                    assert(runners[i] == rest[i]);
                    assert(is_cleared_child(rest, i, j) && cleared_child(rest, i, j) == x);
                } else {
                    let children = last.children.unwrap();
                    assert(children@[j].is_tween && children@[j].entity == x);
                    assert(tweens_of(children@).contains(x));
                }
            }
        }
    }
}

} // verus!
