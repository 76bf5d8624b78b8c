use vstd::prelude::*;

pub mod action;
pub mod message;
pub mod participant;
pub mod state;
pub mod style;
pub mod view;

pub use action::{ChatEvent, MessageAction};
pub use message::{ChatMessage, TextMessage, Timestamp};
pub use participant::Participant;
pub use state::{ChatState, MessageObserver};
pub use style::{BasePalette, ChatTheme, Color, ColorPair, MessageStyle};
pub use view::{ActionButton, ChatView, ChatWidget, HorizontalAlign, MessageBlock, SCROLLABLE_ID};

verus! {

} // verus!
