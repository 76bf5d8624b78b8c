use vstd::prelude::*;

verus! {

/// An instant in UTC: whole seconds since the Unix epoch and the nanoseconds
/// past that second.
#[derive(Debug, Clone, Copy, PartialEq, Eq, Structural)]
pub struct Timestamp {
    pub secs: i64,
    pub nanos: u32,
}

impl Timestamp {
    pub fn new(secs: i64, nanos: u32) -> (r: Timestamp)
        ensures
            r.secs == secs,
            r.nanos == nanos,
    {
        Timestamp { secs, nanos }
    }

    /// Chronological order: by seconds, then by nanoseconds.
    pub open spec fn spec_before(self, other: Timestamp) -> bool {
        self.secs < other.secs || (self.secs == other.secs && self.nanos < other.nanos)
    }

    pub fn before(&self, other: &Timestamp) -> (r: bool)
        ensures
            r == self.spec_before(*other),
    {
        self.secs < other.secs || (self.secs == other.secs && self.nanos < other.nanos)
    }
}

/// What the store and the view need to know of a chat message.
///
/// The spec functions give the message's fields; each accessor returns them.
pub trait ChatMessage: Sized {
    spec fn spec_id(&self) -> u32;

    spec fn spec_content(&self) -> Seq<char>;

    spec fn spec_author_id(&self) -> Seq<char>;

    spec fn spec_timestamp(&self) -> Timestamp;

    spec fn spec_is_own(&self) -> bool;

    fn id(&self) -> (r: u32)
        ensures
            r == self.spec_id(),
    ;

    fn content(&self) -> (r: &str)
        ensures
            r@ == self.spec_content(),
    ;

    fn author_id(&self) -> (r: &str)
        ensures
            r@ == self.spec_author_id(),
    ;

    fn timestamp(&self) -> (r: Timestamp)
        ensures
            r == self.spec_timestamp(),
    ;

    fn is_own_message(&self) -> (r: bool)
        ensures
            r == self.spec_is_own(),
    ;

    /// Sets the identifier and leaves every other field as it was.
    fn set_id(&mut self, id: u32)
        ensures
            final(self).spec_id() == id,
            final(self).spec_content() == old(self).spec_content(),
            final(self).spec_author_id() == old(self).spec_author_id(),
            final(self).spec_timestamp() == old(self).spec_timestamp(),
            final(self).spec_is_own() == old(self).spec_is_own(),
    ;
}

/// A plain text message.
#[derive(Debug, Clone)]
pub struct TextMessage {
    pub id: u32,
    pub content: String,
    pub author_id: String,
    pub timestamp: Timestamp,
    pub is_own: bool,
}

impl TextMessage {
    /// A message with identifier 0; the store assigns the real one.
    pub fn new(content: String, author_id: String, timestamp: Timestamp, is_own: bool) -> (r:
        TextMessage)
        ensures
            r.id == 0,
            r.content == content,
            r.author_id == author_id,
            r.timestamp == timestamp,
            r.is_own == is_own,
    {
        TextMessage { id: 0, content, author_id, timestamp, is_own }
    }
}

impl ChatMessage for TextMessage {
    open spec fn spec_id(&self) -> u32 {
        self.id
    }

    open spec fn spec_content(&self) -> Seq<char> {
        self.content@
    }

    open spec fn spec_author_id(&self) -> Seq<char> {
        self.author_id@
    }

    open spec fn spec_timestamp(&self) -> Timestamp {
        self.timestamp
    }

    open spec fn spec_is_own(&self) -> bool {
        self.is_own
    }

    fn id(&self) -> (r: u32) {
        self.id
    }

    fn content(&self) -> (r: &str) {
        self.content.as_str()
    }

    fn author_id(&self) -> (r: &str) {
        self.author_id.as_str()
    }

    fn timestamp(&self) -> (r: Timestamp) {
        self.timestamp
    }

    fn is_own_message(&self) -> (r: bool) {
        self.is_own
    }

    fn set_id(&mut self, id: u32) {
        self.id = id;
    }
}

} // verus!
