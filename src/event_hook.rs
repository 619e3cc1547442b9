//! Routing of window-system notifications to the borders they concern.
use vstd::prelude::*;
use crate::registry::{BorderId, BorderRegistry, TrackedWindowId};

verus! {

/// The window style of a child window.
pub const WS_CHILD: u32 = 0x4000_0000;

/// The extended style of a tool window.
pub const WS_EX_TOOLWINDOW: u32 = 0x0000_0080;

/// The extended style of a window that does not take focus when clicked.
pub const WS_EX_NOACTIVATE: u32 = 0x0800_0000;

/// Whether a window's styles exclude it from having a border: child windows,
/// tool windows and windows that never take focus.
pub fn has_filtered_style(style: u32, ex_style: u32) -> (r: bool)
    ensures
        r == (style & WS_CHILD != 0 || ex_style & WS_EX_TOOLWINDOW != 0 || ex_style & WS_EX_NOACTIVATE != 0),
{
    style & WS_CHILD != 0 || ex_style & WS_EX_TOOLWINDOW != 0 || ex_style & WS_EX_NOACTIVATE != 0
}

/// A notification about a window, as the window system reports it.
#[derive(Clone, Copy, Debug, PartialEq, Eq, Structural)]
pub enum WindowEvent {
    LocationChange,
    Reorder,
    Focus,
    Show,
    Uncloaked,
    Hide,
    Cloaked,
    MinimizeStart,
    MinimizeEnd,
    Destroy,
    Other,
}

/// The part of the window that a notification is about.
#[derive(Clone, Copy, Debug, PartialEq, Eq, Structural)]
pub enum ObjectKind {
    Window,
    Client,
    Cursor,
    Other,
}

/// A message to a border's controller.
#[derive(Clone, Copy, Debug, PartialEq, Eq, Structural)]
pub enum BorderMessage {
    LocationChanged,
    Reorder,
    ShowUncloaked,
    HideCloaked,
    MinimizeStart,
    MinimizeEnd,
    Focus,
    Destroy,
}

/// One message for one border. When `only_if_visible` is set, the caller
/// sends it only if that border's native window is visible.
#[derive(Clone, Copy, Debug, PartialEq, Eq, Structural)]
pub struct Delivery {
    pub window: TrackedWindowId,
    pub border: BorderId,
    pub message: BorderMessage,
    pub only_if_visible: bool,
}

pub enum Routing {
    /// Send these messages.
    Deliver(Vec<Delivery>),
    /// Create a border for this window.
    Create(TrackedWindowId),
    Nothing,
}

/// The message for the border of the notified window itself, if any.
pub open spec fn own_message(event: WindowEvent, object: ObjectKind, filtered: bool) -> Option<BorderMessage> {
    match event {
        WindowEvent::LocationChange => if filtered {
            None
        } else {
            Some(BorderMessage::LocationChanged)
        },
        WindowEvent::Show | WindowEvent::Uncloaked => if object == ObjectKind::Window {
            Some(BorderMessage::ShowUncloaked)
        } else {
            None
        },
        WindowEvent::Hide | WindowEvent::Cloaked => if object == ObjectKind::Window {
            Some(BorderMessage::HideCloaked)
        } else {
            None
        },
        WindowEvent::MinimizeStart => Some(BorderMessage::MinimizeStart),
        WindowEvent::MinimizeEnd => Some(BorderMessage::MinimizeEnd),
        WindowEvent::Destroy => if (object == ObjectKind::Window || object == ObjectKind::Client) && !filtered {
            Some(BorderMessage::Destroy)
        } else {
            None
        },
        _ => None,
    }
}

/// Whether a notification goes to every border.
pub open spec fn is_broadcast(event: WindowEvent, filtered: bool) -> bool {
    (event == WindowEvent::Reorder || event == WindowEvent::Focus) && !filtered
}

fn own_message_exec(event: WindowEvent, object: ObjectKind, filtered: bool) -> (r: Option<BorderMessage>)
    ensures
        r == own_message(event, object, filtered),
{
    match event {
        WindowEvent::LocationChange => if filtered {
            None
        } else {
            Some(BorderMessage::LocationChanged)
        },
        WindowEvent::Show | WindowEvent::Uncloaked => if object == ObjectKind::Window {
            Some(BorderMessage::ShowUncloaked)
        } else {
            None
        },
        WindowEvent::Hide | WindowEvent::Cloaked => if object == ObjectKind::Window {
            Some(BorderMessage::HideCloaked)
        } else {
            None
        },
        WindowEvent::MinimizeStart => Some(BorderMessage::MinimizeStart),
        WindowEvent::MinimizeEnd => Some(BorderMessage::MinimizeEnd),
        WindowEvent::Destroy => if (object == ObjectKind::Window || object == ObjectKind::Client) && !filtered {
            Some(BorderMessage::Destroy)
        } else {
            None
        },
        _ => None,
    }
}

/// Decides where a notification about `window` goes. `filtered` says that the
/// window has a style that never gets a border, and `eligible` that it is
/// visible and not cloaked. (For a focus change, `window` is the root window
/// of the one that took focus.)
///
/// - Cursor notifications go nowhere.
/// - Reorder and focus changes of unfiltered windows go to every border,
///   each only if visible, except that a focus change always reaches the
///   border of the focused window.
/// - A show or uncloak of a window without a border creates one when the
///   window is eligible and not filtered.
/// - Otherwise a notification goes, as `own_message` says, to the border of
///   the window if it has one.
pub fn handle_win_event(
    registry: &BorderRegistry,
    event: WindowEvent,
    object: ObjectKind,
    window: TrackedWindowId,
    filtered: bool,
    eligible: bool,
) -> (r: Routing)
    ensures
        object == ObjectKind::Cursor ==> r is Nothing,
        object != ObjectKind::Cursor && is_broadcast(event, filtered) ==> match r {
            Routing::Deliver(d) => {
                &&& forall|i: int| 0 <= i < d@.len() ==> {
                    &&& registry@.contains_key(#[trigger] d@[i].window.0)
                    &&& registry@[d@[i].window.0] == d@[i].border.0
                    &&& d@[i].message == if event == WindowEvent::Focus {
                        BorderMessage::Focus
                    } else {
                        BorderMessage::Reorder
                    }
                    &&& d@[i].only_if_visible == (event == WindowEvent::Reorder || d@[i].window != window)
                }
                &&& forall|k: isize| #[trigger] registry@.contains_key(k) ==> exists|i: int| 0 <= i < d@.len() && d@[i].window.0 == k
                &&& forall|i: int, j: int| 0 <= i < j < d@.len() ==> #[trigger] d@[i].window != #[trigger] d@[j].window
            },
            _ => false,
        },
        object != ObjectKind::Cursor && !is_broadcast(event, filtered) ==> match own_message(event, object, filtered) {
            None => r is Nothing,
            Some(m) => if registry@.contains_key(window.0) {
                match r {
                    Routing::Deliver(d) => d@ == seq![Delivery { window, border: BorderId(registry@[window.0]), message: m, only_if_visible: false }],
                    _ => false,
                }
            } else if m == BorderMessage::ShowUncloaked && eligible && !filtered {
                r == Routing::Create(window)
            } else {
                r is Nothing
            },
        },
{
    if object == ObjectKind::Cursor {
        return Routing::Nothing;
    }
    if (event == WindowEvent::Reorder || event == WindowEvent::Focus) && !filtered {
        let all = registry.entries();
        let message = if event == WindowEvent::Focus { BorderMessage::Focus } else { BorderMessage::Reorder };
        let mut out: Vec<Delivery> = Vec::with_capacity(all.len());
        let mut i: usize = 0;
        while i < all.len()
            invariant
                i <= all@.len(),
                out@.len() == i,
                forall|j: int| 0 <= j < i ==> #[trigger] out@[j] == (Delivery {
                    window: all@[j].0,
                    border: all@[j].1,
                    message,
                    only_if_visible: event == WindowEvent::Reorder || all@[j].0 != window,
                }),
            decreases all@.len() - i,
        {
            let (w, b) = all[i];
            out.push(Delivery { window: w, border: b, message, only_if_visible: event == WindowEvent::Reorder || w != window });
            i = i + 1;
        }
        proof {
            assert forall|i: int| 0 <= i < out@.len() implies registry@.contains_key(#[trigger] out@[i].window.0)
                && registry@[out@[i].window.0] == out@[i].border.0 by {
                assert(out@[i] == (Delivery {
                    window: all@[i].0,
                    border: all@[i].1,
                    message,
                    only_if_visible: event == WindowEvent::Reorder || all@[i].0 != window,
                }));
                assert(registry@.contains_key(all@[i].0.0));
            }
            assert forall|k: isize| #[trigger] registry@.contains_key(k) implies exists|i: int| 0 <= i < out@.len() && out@[i].window.0 == k by {
                let i = choose|i: int| 0 <= i < all@.len() && all@[i].0.0 == k;
                assert(out@[i].window.0 == k);
            }
            assert forall|i: int, j: int| 0 <= i < j < out@.len() implies #[trigger] out@[i].window != #[trigger] out@[j].window by {
                assert(all@[i].0 != all@[j].0);
            }
        }
        return Routing::Deliver(out);
    }
    let message = match own_message_exec(event, object, filtered) {
        Some(m) => m,
        None => {
            return Routing::Nothing;
        },
    };
    match registry.lookup(window) {
        Some(border) => {
            let d = vec![Delivery { window, border, message, only_if_visible: false }];
            assert(d@ =~= seq![Delivery { window, border, message, only_if_visible: false }]);
            Routing::Deliver(d)
        },
        None => if message == BorderMessage::ShowUncloaked && eligible && !filtered {
            Routing::Create(window)
        } else {
            Routing::Nothing
        },
    }
}

} // verus!
