use vstd::prelude::*;

verus! {

/// An event delivered to the overlay window, as the host reports it.
#[derive(Clone, Copy, PartialEq, Eq, Structural, Debug)]
pub enum OverlayEvent {
    /// A repaint request.
    Paint,
    /// A character was typed while the overlay had focus.
    CharInput(char),
    /// The window is being destroyed.
    Destroy,
    /// Any other message.
    Other,
}

/// What the overlay does with an event.
#[derive(Clone, Copy, PartialEq, Eq, Structural, Debug)]
pub enum OverlayAction {
    /// Take a snapshot of the store and redraw the frame.
    Repaint,
    /// Close the overlay window.
    CloseWindow,
    /// Post the request that ends the event loop.
    QuitLoop,
    /// The event is consumed with nothing to do.
    Ignore,
    /// Hand the event to the host's default handling.
    Default,
}

/// Decide what the overlay does with an event: a repaint request redraws,
/// typing 'q' or 'Q' closes the window, destruction ends the event loop,
/// any other character is consumed, and everything else is left to the
/// host's default handling.
pub fn handle_event(event: &OverlayEvent) -> (action: OverlayAction)
    ensures
        action == (match *event {
            OverlayEvent::Paint => OverlayAction::Repaint,
            OverlayEvent::CharInput(c) => if c == 'q' || c == 'Q' {
                OverlayAction::CloseWindow
            } else {
                OverlayAction::Ignore
            },
            OverlayEvent::Destroy => OverlayAction::QuitLoop,
            OverlayEvent::Other => OverlayAction::Default,
        }),
{
    match *event {
        OverlayEvent::Paint => OverlayAction::Repaint,
        OverlayEvent::CharInput(c) => {
            if c == 'q' || c == 'Q' {
                OverlayAction::CloseWindow
            } else {
                OverlayAction::Ignore
            }
        },
        OverlayEvent::Destroy => OverlayAction::QuitLoop,
        OverlayEvent::Other => OverlayAction::Default,
    }
}

/// How a run starts.  `Usage` and `NotFound` report to the user and end
/// the run with success; only `Inspect` walks the tree and shows the
/// overlay.
#[derive(Clone, Copy, PartialEq, Eq, Structural, Debug)]
pub enum StartupDecision {
    /// No target was named: print usage and exit cleanly.
    Usage,
    /// The named window is not there: report it and exit cleanly.
    NotFound,
    /// The target window was found: inspect it.
    Inspect,
}

/// Decide how a run starts from the argument count and whether the
/// target window was found.
pub fn startup_decision(arg_count: usize, window_found: bool) -> (d: StartupDecision)
    ensures
        arg_count < 2 ==> d == StartupDecision::Usage,
        arg_count >= 2 && !window_found ==> d == StartupDecision::NotFound,
        arg_count >= 2 && window_found ==> d == StartupDecision::Inspect,
{
    if arg_count < 2 {
        StartupDecision::Usage
    } else if !window_found {
        StartupDecision::NotFound
    } else {
        StartupDecision::Inspect
    }
}

} // verus!
