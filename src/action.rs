use vstd::prelude::*;

verus! {

/// A clickable affordance shown under each message.
#[derive(Debug, Clone, PartialEq, Eq)]
pub struct MessageAction {
    pub id: String,
    pub label: String,
    pub icon: Option<String>,
}

/// What an interactive element of the chat view emits.
#[derive(Debug, Clone, PartialEq, Eq)]
pub enum ChatEvent {
    ActionClicked { message_id: String, action_id: String },
    MessageClicked { message_id: String },
    ParticipantClicked { participant_id: String },
}

} // verus!
