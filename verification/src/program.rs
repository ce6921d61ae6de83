//! The window thread's decisions: what each window event leads to.
use vstd::prelude::*;

use crate::game::{AspectRatio, ToGame};

verus! {

/// The window events the window thread reacts to, as plain values.
pub enum WindowInput {
    CloseRequested,
    Resized { width: u32, height: u32 },
    RedrawRequested,
    /// A key with a known physical code went down (`pressed`) or up;
    /// `escape` tells whether it is the Escape key.
    KeyboardInput { escape: bool, pressed: bool },
    /// Any other event.
    Other,
}

/// What the window thread does in answer to one event.
pub struct WindowReaction {
    /// Leave the event loop.
    pub exit: bool,
    /// The message for the game thread, if any.
    pub to_game: Option<ToGame>,
    /// The new surface size, if the surface is to be reconfigured.
    pub resize_surface: Option<(u32, u32)>,
    /// Draw the current render batch.
    pub redraw: bool,
}

/// The reaction in which nothing happens.
pub open spec fn no_reaction() -> WindowReaction {
    WindowReaction { exit: false, to_game: None, resize_surface: None, redraw: false }
}

/// What the window thread does on `input`; `has_state` tells whether the
/// window and its rendering state exist yet. Before they do, every event is
/// ignored.
pub fn react_to_window_event(has_state: bool, input: WindowInput) -> (res: WindowReaction)
    ensures
        !has_state ==> res == no_reaction(),
        has_state ==> res == match input {
            WindowInput::CloseRequested => WindowReaction {
                exit: true,
                to_game: Some(ToGame::Stop),
                resize_surface: None,
                redraw: false,
            },
            WindowInput::Resized { width, height } => WindowReaction {
                exit: false,
                to_game: Some(ToGame::UpdateCameraAspectRatio(AspectRatio { width, height })),
                resize_surface: if width != 0 && height != 0 {
                    Some((width, height))
                } else {
                    None
                },
                redraw: false,
            },
            WindowInput::RedrawRequested => WindowReaction {
                exit: false,
                to_game: None,
                resize_surface: None,
                redraw: true,
            },
            WindowInput::KeyboardInput { escape, pressed } => WindowReaction {
                exit: escape && pressed,
                to_game: None,
                resize_surface: None,
                redraw: false,
            },
            WindowInput::Other => no_reaction(),
        },
{
    let nothing = WindowReaction { exit: false, to_game: None, resize_surface: None, redraw: false };
    if !has_state {
        return nothing;
    }
    match input {
        WindowInput::CloseRequested => WindowReaction {
            exit: true,
            to_game: Some(ToGame::Stop),
            resize_surface: None,
            redraw: false,
        },
        WindowInput::Resized { width, height } => {
            let resize_surface = if width == 0 || height == 0 {
                None
            } else {
                Some((width, height))
            };
            WindowReaction {
                exit: false,
                to_game: Some(ToGame::UpdateCameraAspectRatio(AspectRatio { width, height })),
                resize_surface,
                redraw: false,
            }
        },
        WindowInput::RedrawRequested => WindowReaction {
            exit: false,
            to_game: None,
            resize_surface: None,
            redraw: true,
        },
        WindowInput::KeyboardInput { escape, pressed } => WindowReaction {
            exit: escape && pressed,
            to_game: None,
            resize_surface: None,
            redraw: false,
        },
        WindowInput::Other => nothing,
    }
}

/// The messages for the game thread once the window of the given size
/// exists: first `Start`, then the window's aspect ratio.
pub fn messages_on_resume(width: u32, height: u32) -> (res: Vec<ToGame>)
    ensures
        res@ == seq![
            ToGame::Start,
            ToGame::UpdateCameraAspectRatio(AspectRatio { width, height }),
        ],
{
    let mut res: Vec<ToGame> = Vec::new();
    res.push(ToGame::Start);
    res.push(ToGame::UpdateCameraAspectRatio(AspectRatio { width, height }));
    res
}

} // verus!
