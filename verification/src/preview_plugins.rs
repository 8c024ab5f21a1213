//! The full-screen preview of a card's picture: a long press (or a click) on
//! a card stages its picture and shows the preview; pressing the preview
//! closes it and clears the staged picture.
use vstd::prelude::*;

verus! {

/// The card code whose picture a button previews.
pub struct ImagePreview(pub String);

/// A preview button as the long-press check sees it: whether it is pressed,
/// and the card code it previews.
pub struct PreviewButton {
    pub pressed: bool,
    pub code: String,
}

/// The path of the picture of a card.
pub open spec fn image_path(code: Seq<char>) -> Seq<char> {
    "cards/"@ + code + ".png"@
}

/// Builds the path of the picture of a card.
pub fn card_image_path(code: &str) -> (path: String)
    ensures
        path@ == image_path(code@),
        path@ == "cards/"@ + code@ + ".png"@,
        path@.len() == code@.len() + 10,
        path@.subrange(6, 6 + code@.len() as int) == code@,
{
    proof {
        reveal_strlit("cards/");
        reveal_strlit(".png");
        assert(("cards/"@ + code@ + ".png"@).subrange(6, 6 + code@.len() as int) =~= code@);
    }
    let mut path = "cards/".to_owned();
    path.append(code);
    path.append(".png");
    path
}

/// Whether the left button is held down on a preview button, and whether the
/// long-press timer is to be started over.
pub struct PressUpdate {
    pub pressed: bool,
    pub reset_timer: bool,
}

/// The press flag after a frame with `buttons` preview buttons: a release
/// clears it, a press sets it; with no button nothing is looked at.
pub open spec fn press_after(pressed: bool, buttons: nat, just_pressed: bool, just_released: bool) -> bool {
    if buttons == 0 {
        pressed
    } else if just_released {
        false
    } else if just_pressed {
        true
    } else {
        pressed
    }
}

/// The timer starts over on a release, and on a press that begins a hold.
pub open spec fn timer_restarts(pressed: bool, buttons: nat, just_pressed: bool, just_released: bool) -> bool {
    buttons > 0 && (just_released || (just_pressed && !pressed))
}

/// One frame of mouse input while no preview is shown. For each preview
/// button, a fresh press of the left button starts a hold and the timer,
/// and a release ends the hold and starts the timer over.
pub fn handle_mouse_input(pressed: bool, buttons: usize, just_pressed: bool, just_released: bool) -> (r: PressUpdate)
    ensures
        r.pressed == press_after(pressed, buttons as nat, just_pressed, just_released),
        r.reset_timer == timer_restarts(pressed, buttons as nat, just_pressed, just_released),
        buttons == 0 ==> r.pressed == pressed && !r.reset_timer,
        !just_pressed && !just_released ==> r.pressed == pressed && !r.reset_timer,
        buttons > 0 && just_released ==> !r.pressed && r.reset_timer,
        buttons > 0 && just_pressed && !just_released ==> r.pressed && r.reset_timer == !pressed,
{
    let mut held = pressed;
    let mut reset = false;
    let mut i: usize = 0;
    while i < buttons
        invariant
            i <= buttons,
            i == 0 ==> held == pressed && !reset,
            i > 0 ==> held == press_after(pressed, i as nat, just_pressed, just_released),
            i > 0 ==> reset == timer_restarts(pressed, i as nat, just_pressed, just_released),
        decreases buttons - i,
    {
        if just_pressed {
            if !held {
                reset = true;
                held = true;
            }
        }
        if just_released {
            held = false;
            reset = true;
        }
        i = i + 1;
    }
    PressUpdate { pressed: held, reset_timer: reset }
}

/// The code of the last pressed button, if any button is pressed.
pub open spec fn last_pressed(buttons: Seq<PreviewButton>) -> Option<Seq<char>>
    decreases buttons.len(),
{
    if buttons.len() == 0 {
        None
    } else if buttons.last().pressed {
        Some(buttons.last().code@)
    } else {
        last_pressed(buttons.drop_last())
    }
}

/// When the long-press timer has just run out, the picture of the last
/// pressed preview button is staged and the preview is to be shown. `None`
/// when the timer is still running or no button is pressed.
pub fn check_long_press(timer_finished: bool, buttons: &Vec<PreviewButton>) -> (staged: Option<String>)
    ensures
        !timer_finished ==> staged is None,
        timer_finished ==> match last_pressed(buttons@) {
            Some(code) => staged matches Some(path) && path@ == image_path(code),
            None => staged is None,
        },
        timer_finished && (exists|k: int| 0 <= k < buttons.len() && buttons[k].pressed)
            ==> staged is Some,
        (forall|k: int| 0 <= k < buttons.len() ==> !buttons[k].pressed) ==> staged is None,
        forall|k: int|
            0 <= k < buttons.len() && #[trigger] buttons[k].pressed && timer_finished && (forall|j: int|
                k < j < buttons.len() ==> !buttons[j].pressed) ==> (staged matches Some(path)
                && path@ == "cards/"@ + buttons[k].code@ + ".png"@),
{
    proof {
        lemma_no_press_no_pick(buttons@);
        assert forall|k: int|
            0 <= k < buttons.len() && #[trigger] buttons[k].pressed && (forall|j: int|
                k < j < buttons.len() ==> !buttons[j].pressed) implies last_pressed(buttons@) == Some(
            buttons[k].code@,
        ) by {
            lemma_long_press_picks_last_held(buttons@, k);
        }
    }
    if !timer_finished {
        return None;
    }
    let mut staged: Option<String> = None;
    let n = buttons.len();
    let mut i: usize = 0;
    while i < n
        invariant
            n == buttons.len(),
            i <= n,
            match last_pressed(buttons@.take(i as int)) {
                Some(code) => staged matches Some(path) && path@ == image_path(code),
                None => staged is None,
            },
        decreases n - i,
    {
        assert(buttons@.take(i + 1).drop_last() == buttons@.take(i as int));
        if buttons[i].pressed {
            staged = Some(card_image_path(buttons[i].code.as_str()));
        }
        i = i + 1;
    }
    assert(buttons@.take(n as int) == buttons@);
    staged
}

/// A click on a part of a card: when the card has a preview, its picture is
/// staged and the preview is to be shown.
pub fn preview_on_click(preview: Option<&ImagePreview>) -> (staged: Option<String>)
    ensures
        match preview {
            Some(p) => staged matches Some(path) && path@ == image_path(p.0@),
            None => staged is None,
        },
        preview matches Some(p) ==> (staged matches Some(path) && path@ == "cards/"@ + p.0@ + ".png"@),
{
    match preview {
        Some(p) => Some(card_image_path(p.0.as_str())),
        None => None,
    }
}

/// While the preview is shown: pressing it closes the preview, which clears
/// the staged picture and hides the preview.
pub fn check_quit_preview(pressed: &Vec<bool>) -> (quit: bool)
    ensures
        quit == exists|i: int| 0 <= i < pressed.len() && pressed[i],
{
    let n = pressed.len();
    let mut i: usize = 0;
    while i < n
        invariant
            n == pressed.len(),
            i <= n,
            forall|j: int| 0 <= j < i ==> !pressed[j],
        decreases n - i,
    {
        if pressed[i] {
            return true;
        }
        i = i + 1;
    }
    false
}

/// The long-press hold over a frame: with no preview button, or with neither a
/// press nor a release, nothing changes and the timer keeps running; a release
/// ends the hold and starts the timer over; a press without a release holds,
/// and starts the timer over only when no hold was under way.
pub proof fn lemma_hold_and_timer(pressed: bool, buttons: nat, just_pressed: bool, just_released: bool)
    ensures
        buttons == 0 ==> press_after(pressed, buttons, just_pressed, just_released) == pressed
            && !timer_restarts(pressed, buttons, just_pressed, just_released),
        !just_pressed && !just_released ==> press_after(pressed, buttons, just_pressed, just_released)
            == pressed && !timer_restarts(pressed, buttons, just_pressed, just_released),
        buttons > 0 && just_released ==> !press_after(pressed, buttons, just_pressed, just_released)
            && timer_restarts(pressed, buttons, just_pressed, just_released),
        buttons > 0 && just_pressed && !just_released ==> press_after(
            pressed,
            buttons,
            just_pressed,
            just_released,
        ) && timer_restarts(pressed, buttons, just_pressed, just_released) == !pressed,
{
}

/// No button is picked exactly when none is pressed.
pub proof fn lemma_no_press_no_pick(buttons: Seq<PreviewButton>)
    ensures
        last_pressed(buttons) is None <==> forall|k: int| 0 <= k < buttons.len() ==> !buttons[k].pressed,
    decreases buttons.len(),
{
    if buttons.len() > 0 {
        lemma_no_press_no_pick(buttons.drop_last());
        if !buttons.last().pressed {
            assert forall|k: int| 0 <= k < buttons.len() - 1 && !buttons.drop_last()[k].pressed
                implies !buttons[k].pressed by {}
            if last_pressed(buttons) is None {
                assert forall|k: int| 0 <= k < buttons.len() implies !buttons[k].pressed by {
                    if k < buttons.len() - 1 {
                        assert(buttons.drop_last()[k] == buttons[k]);
                    }
                }
            }
        }
    }
}

/// When the long-press timer runs out, the picture staged is that of the
/// pressed button with no pressed button after it, whichever its place,
/// the first one included.
pub proof fn lemma_long_press_picks_last_held(buttons: Seq<PreviewButton>, k: int)
    requires
        0 <= k < buttons.len(),
        buttons[k].pressed,
        forall|j: int| k < j < buttons.len() ==> !buttons[j].pressed,
    ensures
        last_pressed(buttons) == Some(buttons[k].code@),
    decreases buttons.len(),
{
    if k < buttons.len() - 1 {
        assert(!buttons.last().pressed);
        let rest = buttons.drop_last();
        assert(rest[k] == buttons[k]);
        assert forall|j: int| k < j < rest.len() implies !rest[j].pressed by {
            assert(rest[j] == buttons[j]);
        }
        lemma_long_press_picks_last_held(rest, k);
    }
}

/// The picture of a card is the card's code between "cards/" and ".png": the
/// path is ten characters longer than the code and holds the code from its
/// seventh character on.
pub proof fn lemma_picture_path_holds_code(code: Seq<char>)
    ensures
        image_path(code) == "cards/"@ + code + ".png"@,
        image_path(code).len() == code.len() + 10,
        image_path(code).subrange(6, 6 + code.len() as int) == code,
{
    reveal_strlit("cards/");
    reveal_strlit(".png");
    assert(image_path(code).subrange(6, 6 + code.len() as int) =~= code);
}

} // verus!
