use card_test::cards::{
    clear_on_finish_system, confirm_drop, deal_on_drop, drag_end, drag_start, move_on_drag,
    out_card, over_card, CardFlags, CardMotion, CardReaction, FinishedRunner, RunnerChild,
};

const FREE: CardFlags = CardFlags { dragging: false, setted: false };
const HELD: CardFlags = CardFlags { dragging: true, setted: false };
const SET: CardFlags = CardFlags { dragging: false, setted: true };

fn stays(card: Option<CardFlags>) -> CardReaction {
    CardReaction { card, motion: CardMotion::Stay }
}

#[test]
fn over_card_lifts_a_free_card() {
    assert_eq!(over_card(Some(FREE)), CardReaction { card: Some(FREE), motion: CardMotion::Lift });
}

#[test]
fn over_card_ignores_held_set_and_missing_cards() {
    assert_eq!(over_card(Some(HELD)), stays(Some(HELD)));
    assert_eq!(over_card(Some(SET)), stays(Some(SET)));
    assert_eq!(over_card(None), stays(None));
}

#[test]
fn out_card_returns_a_free_card_home() {
    assert_eq!(
        out_card(Some(FREE)),
        CardReaction { card: Some(FREE), motion: CardMotion::ReturnHome }
    );
    assert_eq!(out_card(Some(HELD)), stays(Some(HELD)));
    assert_eq!(out_card(Some(SET)), stays(Some(SET)));
    assert_eq!(out_card(None), stays(None));
}

#[test]
fn drag_start_marks_the_card_dragged() {
    let r = drag_start(true, Some(FREE));
    assert!(r.ignore_picking);
    assert_eq!(r.reaction, stays(Some(HELD)));
}

#[test]
fn drag_start_on_a_frame_part_keeps_picking() {
    let r = drag_start(false, Some(FREE));
    assert!(!r.ignore_picking);
    assert_eq!(r.reaction, stays(Some(HELD)));
}

#[test]
fn drag_start_leaves_set_and_missing_cards() {
    let r = drag_start(true, Some(SET));
    assert!(r.ignore_picking);
    assert_eq!(r.reaction, stays(Some(SET)));
    let r = drag_start(false, None);
    assert!(!r.ignore_picking);
    assert_eq!(r.reaction, stays(None));
}

#[test]
fn move_on_drag_follows_unless_set() {
    assert_eq!(
        move_on_drag(Some(HELD)),
        CardReaction { card: Some(HELD), motion: CardMotion::FollowCursor }
    );
    assert_eq!(
        move_on_drag(Some(FREE)),
        CardReaction { card: Some(FREE), motion: CardMotion::FollowCursor }
    );
    assert_eq!(move_on_drag(Some(SET)), stays(Some(SET)));
    assert_eq!(move_on_drag(None), stays(None));
}

#[test]
fn drag_end_sends_the_card_home() {
    assert_eq!(
        drag_end(Some(HELD)),
        CardReaction { card: Some(FREE), motion: CardMotion::ReturnHome }
    );
    assert_eq!(drag_end(Some(SET)), stays(Some(SET)));
    assert_eq!(drag_end(None), stays(None));
}

#[test]
fn deal_on_drop_asks_for_unset_cards_only() {
    assert_eq!(
        deal_on_drop(Some(HELD)),
        CardReaction { card: Some(HELD), motion: CardMotion::AskToSet }
    );
    assert_eq!(deal_on_drop(Some(SET)), stays(Some(SET)));
    assert_eq!(deal_on_drop(None), stays(None));
}

#[test]
fn confirm_drop_sets_the_card() {
    assert_eq!(
        confirm_drop(FREE),
        CardReaction { card: Some(SET), motion: CardMotion::MoveToZone }
    );
    assert_eq!(
        confirm_drop(HELD),
        CardReaction {
            card: Some(CardFlags { dragging: true, setted: true }),
            motion: CardMotion::MoveToZone
        }
    );
}

#[test]
fn set_card_stays_set_and_ignores_the_pointer() {
    let card = Some(SET);
    assert_eq!(over_card(card), stays(card));
    assert_eq!(out_card(card), stays(card));
    assert_eq!(drag_start(true, card).reaction, stays(card));
    assert_eq!(move_on_drag(card), stays(card));
    assert_eq!(drag_end(card), stays(card));
    assert_eq!(deal_on_drop(card), stays(card));
    assert_eq!(confirm_drop(SET).card, Some(SET));
}

#[test]
fn drag_round_trip_restores_a_free_card() {
    let held = drag_start(true, Some(FREE)).reaction.card;
    assert_eq!(drag_end(held), CardReaction { card: Some(FREE), motion: CardMotion::ReturnHome });
}

#[test]
fn clear_on_finish_removes_tween_children_of_marked_runners() {
    let finished = vec![
        FinishedRunner {
            clear_on_finish: true,
            children: Some(vec![
                RunnerChild { entity: 10, is_tween: true },
                RunnerChild { entity: 11, is_tween: false },
                RunnerChild { entity: 12, is_tween: true },
            ]),
        },
        FinishedRunner {
            clear_on_finish: false,
            children: Some(vec![RunnerChild { entity: 20, is_tween: true }]),
        },
        FinishedRunner { clear_on_finish: true, children: None },
        FinishedRunner {
            clear_on_finish: true,
            children: Some(vec![RunnerChild { entity: 40, is_tween: true }]),
        },
    ];
    assert_eq!(clear_on_finish_system(&finished), vec![10, 12, 40]);
}

#[test]
fn clear_on_finish_with_nothing_finished() {
    assert_eq!(clear_on_finish_system(&vec![]), Vec::<u64>::new());
}
