//! The two message shapes of the relay: the transient wire payload and the
//! persisted, id-assigned record.

use vstd::prelude::*;

verus! {

/// The transient wire/persistence payload a client sends: carries no id
/// until it is persisted, and exists only for one publish-to-persist cycle.
pub struct MessagePack {
    pub name: String,
    pub message: String,
    pub date: i64,
}

/// Mathematical view of a [`MessagePack`].
pub struct MessagePackView {
    pub name: Seq<char>,
    pub message: Seq<char>,
    pub date: int,
}

impl View for MessagePack {
    type V = MessagePackView;

    open spec fn view(&self) -> MessagePackView {
        MessagePackView { name: self.name@, message: self.message@, date: self.date as int }
    }
}

/// The persisted record: a [`MessagePack`] plus the id the store assigned on
/// insert, immutable thereafter.
pub struct ChatMessage {
    pub id: i64,
    pub name: String,
    pub message: String,
    pub date: i64,
}

/// Mathematical view of a [`ChatMessage`].
pub struct ChatMessageView {
    pub id: int,
    pub name: Seq<char>,
    pub message: Seq<char>,
    pub date: int,
}

impl View for ChatMessage {
    type V = ChatMessageView;

    open spec fn view(&self) -> ChatMessageView {
        ChatMessageView {
            id: self.id as int,
            name: self.name@,
            message: self.message@,
            date: self.date as int,
        }
    }
}

} // verus!
