use vstd::prelude::*;
use std::fmt::Write;
use crate::action::{ChatEvent, MessageAction};
use crate::message::{ChatMessage, Timestamp};
use crate::state::{ChatState, MessageObserver};
use crate::style::{is_default_theme, BasePalette, ChatTheme, Color, MessageStyle};

verus! {

/// The identifier of the scrollable region that holds the conversation.
pub const SCROLLABLE_ID: &'static str = "chat_messages_scrollable";

/// The digit character for `d < 10`.
pub open spec fn digit_char(d: nat) -> char {
    if d == 0 { '0' }
    else if d == 1 { '1' }
    else if d == 2 { '2' }
    else if d == 3 { '3' }
    else if d == 4 { '4' }
    else if d == 5 { '5' }
    else if d == 6 { '6' }
    else if d == 7 { '7' }
    else if d == 8 { '8' }
    else { '9' }
}

/// `n` in decimal, without leading zeros.
pub open spec fn decimal(n: nat) -> Seq<char>
    decreases n,
{
    if n < 10 {
        seq![digit_char(n)]
    } else {
        decimal(n / 10).push(digit_char(n % 10))
    }
}

/// Relies on `u32::to_string`, which writes the value in decimal.
#[verifier::external_body]
fn decimal_string(n: u32) -> (r: String)
    ensures
        r@ == decimal(n as nat),
{
    n.to_string()
}

/// What chrono prints for the UTC instant `secs`, `nanos` under the strftime
/// pattern `pattern`; `None` where the instant is out of chrono's range or
/// the pattern does not parse.
pub uninterp spec fn utc_strftime(secs: int, nanos: int, pattern: Seq<char>) -> Option<Seq<char>>;

/// Relies on chrono's `DateTime::from_timestamp` and `DateTime::format`:
/// the text depends on the instant and the pattern alone.
#[verifier::external_body]
fn format_utc(secs: i64, nanos: u32, pattern: &str) -> (r: Option<String>)
    ensures
        match r {
            Some(s) => utc_strftime(secs as int, nanos as int, pattern@) == Some(s@),
            None => utc_strftime(secs as int, nanos as int, pattern@) is None,
        },
{
    match chrono::DateTime::from_timestamp(secs, nanos) {
        Some(t) => {
            let mut s = String::new();
            match write!(s, "{}", t.format(pattern)) {
                Ok(()) => Some(s),
                Err(_) => None,
            }
        },
        None => None,
    }
}

/// The text shown under a message sent at `t`: the formatted instant, or
/// nothing where it cannot be formatted.
pub open spec fn timestamp_text(t: Timestamp, pattern: Seq<char>) -> Seq<char> {
    match utc_strftime(t.secs as int, t.nanos as int, pattern) {
        Some(s) => s,
        None => Seq::empty(),
    }
}

/// Where a message sits across the width of the view.
#[derive(Debug, Clone, Copy, PartialEq, Eq, Structural)]
pub enum HorizontalAlign {
    Left,
    Right,
}

/// A button under a message and the event that pressing it emits.
#[derive(Debug, Clone)]
pub struct ActionButton {
    pub label: String,
    pub on_press: ChatEvent,
}

/// One message as it is drawn: author, content, the action buttons, and the
/// time stamp right-aligned below, in the resolved style and alignment.
#[derive(Debug, Clone)]
pub struct MessageBlock {
    pub message_id: u32,
    pub author: String,
    pub content: String,
    pub style: MessageStyle,
    pub align: HorizontalAlign,
    pub actions: Vec<ActionButton>,
    pub timestamp_text: String,
}

/// The conversation as it is drawn: the blocks top to bottom inside a padded,
/// scrollable container.
#[derive(Debug, Clone)]
pub struct ChatView {
    pub blocks: Vec<MessageBlock>,
    pub spacing: u16,
    pub padding: u16,
    pub background: Color,
    pub scroll_id: String,
}

/// `b` is one button per action, in order, each emitting `ActionClicked`
/// with the message's identifier in decimal and the action's identifier.
pub open spec fn buttons_for(b: Seq<ActionButton>, actions: Seq<MessageAction>, id: u32) -> bool {
    &&& b.len() == actions.len()
    &&& forall|i: int|
        #![trigger b[i]]
        0 <= i < b.len() ==> {
            &&& b[i].label@ == actions[i].label@
            &&& match b[i].on_press {
                ChatEvent::ActionClicked { message_id, action_id } => {
                    &&& message_id@ == decimal(id as nat)
                    &&& action_id@ == actions[i].id@
                },
                _ => false,
            }
        }
}

/// `b` draws message `m`, stored under `id`, in `theme` with `actions`, and
/// with `stamp` as its time stamp text.
pub open spec fn is_block_for<M: ChatMessage>(
    b: MessageBlock,
    id: u32,
    m: M,
    theme: ChatTheme,
    actions: Seq<MessageAction>,
    stamp: Seq<char>,
) -> bool {
    &&& b.message_id == id
    &&& b.author@ == m.spec_author_id()
    &&& b.content@ == m.spec_content()
    &&& b.style == theme.spec_style_for(m.spec_is_own())
    &&& b.align == if m.spec_is_own() {
        HorizontalAlign::Right
    } else {
        HorizontalAlign::Left
    }
    &&& buttons_for(b.actions@, actions, id)
    &&& b.timestamp_text@ == stamp
}

/// The block of message `m` under `id`, its time stamp formatted with the
/// pattern of the style it is drawn in.
pub open spec fn is_rendered<M: ChatMessage>(
    b: MessageBlock,
    id: u32,
    m: M,
    theme: ChatTheme,
    actions: Seq<MessageAction>,
) -> bool {
    is_block_for(
        b,
        id,
        m,
        theme,
        actions,
        timestamp_text(
            m.spec_timestamp(),
            theme.spec_style_for(m.spec_is_own()).time_stamp_format@,
        ),
    )
}

/// Builds the block of `msg`, stored under `id`, around a time stamp text
/// that is already formatted.
pub fn compose_block<M: ChatMessage>(
    id: u32,
    msg: &M,
    theme: &ChatTheme,
    actions: &Vec<MessageAction>,
    timestamp_text: String,
) -> (b: MessageBlock)
    ensures
        is_block_for(b, id, *msg, *theme, actions@, timestamp_text@),
{
    let is_own = msg.is_own_message();
    let style = theme.style_for(is_own).duplicate();
    let msg_id = decimal_string(id);
    let mut buttons: Vec<ActionButton> = Vec::new();
    let mut i: usize = 0;
    while i < actions.len()
        invariant
            i <= actions@.len(),
            msg_id@ == decimal(id as nat),
            buttons_for(buttons@, actions@.subrange(0, i as int), id),
        decreases actions@.len() - i,
    {
        let action = &actions[i];
        let button = ActionButton {
            label: action.label.clone(),
            on_press: ChatEvent::ActionClicked {
                message_id: msg_id.clone(),
                action_id: action.id.clone(),
            },
        };
        buttons.push(button);
        i = i + 1;
        assert(buttons@.last() == button);
    }
    assert(actions@.subrange(0, i as int) =~= actions@);
    MessageBlock {
        message_id: id,
        author: msg.author_id().to_owned(),
        content: msg.content().to_owned(),
        style,
        align: if is_own {
            HorizontalAlign::Right
        } else {
            HorizontalAlign::Left
        },
        actions: buttons,
        timestamp_text,
    }
}

/// Builds the block of `msg`, stored under `id`, in `theme` with `actions`.
pub fn render_message_owned<M: ChatMessage>(
    id: u32,
    msg: &M,
    theme: &ChatTheme,
    actions: &Vec<MessageAction>,
) -> (b: MessageBlock)
    ensures
        is_rendered(b, id, *msg, *theme, actions@),
{
    let style = theme.style_for(msg.is_own_message());
    let t = msg.timestamp();
    let text = match format_utc(t.secs, t.nanos, style.time_stamp_format()) {
        Some(s) => s,
        None => String::new(),
    };
    compose_block(id, msg, theme, actions, text)
}

/// Display order: the earlier instant first; at the same instant, the
/// smaller identifier first.
pub open spec fn shown_before<M: ChatMessage>(m: Map<u32, M>, a: u32, b: u32) -> bool {
    let ta = m[a].spec_timestamp();
    let tb = m[b].spec_timestamp();
    ta.spec_before(tb) || (ta == tb && a < b)
}

/// Each element of `s` is shown before every later one.
pub open spec fn strictly_ordered<M: ChatMessage>(m: Map<u32, M>, s: Seq<u32>) -> bool {
    forall|a: int, b: int| 0 <= a < b < s.len() ==> #[trigger] shown_before(m, s[a], s[b])
}

/// `s` lists every message of `m` once, in display order.
pub open spec fn is_display_order<M: ChatMessage>(m: Map<u32, M>, s: Seq<u32>) -> bool {
    &&& s.to_set() == m.dom()
    &&& s.len() == m.len()
    &&& strictly_ordered(m, s)
}

proof fn lemma_shown_before_order<M: ChatMessage>(m: Map<u32, M>, a: u32, b: u32, c: u32)
    ensures
        !shown_before(m, a, a),
        a != b ==> shown_before(m, a, b) || shown_before(m, b, a),
        shown_before(m, a, b) && shown_before(m, b, c) ==> shown_before(m, a, c),
{
}

proof fn lemma_to_set_insert(s: Seq<u32>, i: int, x: u32)
    requires
        0 <= i <= s.len(),
    ensures
        s.insert(i, x).to_set() == s.to_set().insert(x),
{
    let t = s.insert(i, x);
    assert forall|y: u32| t.to_set().contains(y) implies s.to_set().insert(y).contains(y) by {}
    assert forall|y: u32| s.to_set().insert(x).contains(y) implies t.to_set().contains(y) by {
        if y == x {
            assert(t[i] == x);
        } else {
            let j = choose|j: int| 0 <= j < s.len() && s[j] == y;
            if j < i {
                assert(t[j] == y);
            } else {
                assert(t[j + 1] == y);
            }
        }
    }
    assert forall|y: u32| t.to_set().contains(y) implies s.to_set().insert(x).contains(y) by {
        let j = choose|j: int| 0 <= j < t.len() && t[j] == y;
        if j < i {
            assert(s[j] == y);
        } else if j > i {
            assert(s[j - 1] == y);
        }
    }
    assert(t.to_set() =~= s.to_set().insert(x));
}

/// The display order of a set of messages depends on the messages alone:
/// two sequences that list the same messages, each in display order, are
/// the same sequence, whatever order the messages were stored in.
pub proof fn lemma_display_order_unique<M: ChatMessage>(m: Map<u32, M>, s1: Seq<u32>, s2: Seq<u32>)
    requires
        s1.to_set() == s2.to_set(),
        strictly_ordered(m, s1),
        strictly_ordered(m, s2),
    ensures
        s1 == s2,
    decreases s1.len(),
{
    if s1.len() == 0 {
        if s2.len() > 0 {
            assert(s2.to_set().contains(s2[0]));
        }
        assert(s1 =~= s2);
    } else {
        assert(s1.to_set().contains(s1[0]));
        assert(s2.len() > 0);
        let a = s1[0];
        let b = s2[0];
        assert(s2.to_set().contains(b));
        let j1 = choose|j: int| 0 <= j < s1.len() && s1[j] == b;
        let j2 = choose|j: int| 0 <= j < s2.len() && s2[j] == a;
        if a != b {
            assert(shown_before(m, s1[0], s1[j1]));
            assert(shown_before(m, s2[0], s2[j2]));
            lemma_shown_before_order(m, a, b, a);
        }
        let r1 = s1.drop_first();
        let r2 = s2.drop_first();
        assert forall|y: u32| r1.to_set().contains(y) implies r2.to_set().contains(y) by {
            let k = choose|k: int| 0 <= k < r1.len() && r1[k] == y;
            assert(shown_before(m, s1[0], s1[k + 1]));
            lemma_shown_before_order(m, a, a, a);
            assert(s1.to_set().contains(s1[k + 1]));
            let l = choose|l: int| 0 <= l < s2.len() && s2[l] == y;
            assert(l != 0);
            assert(r2[l - 1] == y);
        }
        assert forall|y: u32| r2.to_set().contains(y) implies r1.to_set().contains(y) by {
            let k = choose|k: int| 0 <= k < r2.len() && r2[k] == y;
            assert(shown_before(m, s2[0], s2[k + 1]));
            lemma_shown_before_order(m, b, b, b);
            assert(s2.to_set().contains(s2[k + 1]));
            let l = choose|l: int| 0 <= l < s1.len() && s1[l] == y;
            assert(l != 0);
            assert(r1[l - 1] == y);
        }
        assert(r1.to_set() =~= r2.to_set());
        assert forall|x: int, y: int| 0 <= x < y < r1.len() implies #[trigger] shown_before(
            m,
            r1[x],
            r1[y],
        ) by {
            assert(shown_before(m, s1[x + 1], s1[y + 1]));
        }
        assert forall|x: int, y: int| 0 <= x < y < r2.len() implies #[trigger] shown_before(
            m,
            r2[x],
            r2[y],
        ) by {
            assert(shown_before(m, s2[x + 1], s2[y + 1]));
        }
        lemma_display_order_unique(m, r1, r2);
        assert(a == b);
        assert(s1.len() == s2.len());
        assert forall|k: int| 0 <= k < s1.len() implies s1[k] == s2[k] by {
            if k > 0 {
                assert(s1[k] == r1[k - 1]);
                assert(s2[k] == r2[k - 1]);
            }
        }
        assert(s1 =~= s2);
    }
}

/// Where no two messages share an instant, display order is strictly
/// ascending time order.
pub proof fn lemma_distinct_times_ascending<M: ChatMessage>(m: Map<u32, M>, s: Seq<u32>)
    requires
        strictly_ordered(m, s),
        forall|a: u32, b: u32|
            m.contains_key(a) && m.contains_key(b) && a != b ==> m[a].spec_timestamp()
                != m[b].spec_timestamp(),
        forall|i: int| 0 <= i < s.len() ==> m.contains_key(#[trigger] s[i]),
    ensures
        forall|i: int, j: int|
            0 <= i < j < s.len() ==> (#[trigger] m[s[i]].spec_timestamp()).spec_before(
                #[trigger] m[s[j]].spec_timestamp(),
            ),
{
    assert forall|i: int, j: int| 0 <= i < j < s.len() implies (#[trigger] m[s[i]].spec_timestamp()).spec_before(
        #[trigger] m[s[j]].spec_timestamp(),
    ) by {
        assert(shown_before(m, s[i], s[j]));
        lemma_shown_before_order(m, s[i], s[i], s[i]);
    }
}

fn shown_before_exec<M: ChatMessage, O: MessageObserver<M>>(
    state: &ChatState<M, O>,
    a: u32,
    b: u32,
) -> (r: bool)
    requires
        state.messages().contains_key(a),
        state.messages().contains_key(b),
    ensures
        r == shown_before(state.messages(), a, b),
{
    let ta = state.get_message(&a).unwrap().timestamp();
    let tb = state.get_message(&b).unwrap().timestamp();
    ta.before(&tb) || (ta == tb && a < b)
}

/// The identifiers `ids` of stored messages, rearranged into display order.
fn display_order<M: ChatMessage, O: MessageObserver<M>>(
    state: &ChatState<M, O>,
    ids: &Vec<u32>,
) -> (r: Vec<u32>)
    requires
        ids@.no_duplicates(),
        forall|j: int| 0 <= j < ids@.len() ==> state.messages().contains_key(ids@[j]),
    ensures
        r@.to_set() == ids@.to_set(),
        r@.len() == ids@.len(),
        strictly_ordered(state.messages(), r@),
{
    let ghost m = state.messages();
    let mut sorted: Vec<u32> = Vec::new();
    let mut i: usize = 0;
    while i < ids.len()
        invariant
            i <= ids@.len(),
            m == state.messages(),
            ids@.no_duplicates(),
            forall|j: int| 0 <= j < ids@.len() ==> m.contains_key(ids@[j]),
            sorted@.to_set() == ids@.subrange(0, i as int).to_set(),
            sorted@.len() == i,
            forall|j: int| 0 <= j < sorted@.len() ==> m.contains_key(#[trigger] sorted@[j]),
            strictly_ordered(m, sorted@),
        decreases ids@.len() - i,
    {
        let x = ids[i];
        assert(!sorted@.to_set().contains(x)) by {
            if sorted@.to_set().contains(x) {
                let j = choose|j: int| 0 <= j < i && ids@.subrange(0, i as int)[j] == x;
                assert(ids@[j] == ids@[i as int]);
            }
        }
        let mut pos: usize = 0;
        while pos < sorted.len() && shown_before_exec(state, sorted[pos], x)
            invariant
                pos <= sorted@.len(),
                m == state.messages(),
                m.contains_key(x),
                forall|j: int| 0 <= j < sorted@.len() ==> m.contains_key(#[trigger] sorted@[j]),
                forall|j: int| 0 <= j < pos ==> shown_before(m, #[trigger] sorted@[j], x),
            decreases sorted@.len() - pos,
        {
            pos = pos + 1;
        }
        let ghost old_sorted = sorted@;
        proof {
            assert forall|j: int| pos <= j < old_sorted.len() implies shown_before(
                m,
                x,
                #[trigger] old_sorted[j],
            ) by {
                assert(old_sorted.to_set().contains(old_sorted[pos as int]));
                lemma_shown_before_order(m, old_sorted[pos as int], x, old_sorted[j]);
                lemma_shown_before_order(m, x, old_sorted[pos as int], old_sorted[j]);
                if j > pos {
                    assert(shown_before(m, old_sorted[pos as int], old_sorted[j]));
                }
            }
        }
        sorted.insert(pos, x);
        proof {
            let t = sorted@;
            assert(t == old_sorted.insert(pos as int, x));
            lemma_to_set_insert(old_sorted, pos as int, x);
            assert(ids@.subrange(0, i + 1) =~= ids@.subrange(0, i as int).push(x));
            assert(ids@.subrange(0, i as int).push(x) =~= ids@.subrange(0, i as int).insert(
                i as int,
                x,
            ));
            lemma_to_set_insert(ids@.subrange(0, i as int), i as int, x);
            assert forall|a: int, b: int| 0 <= a < b < t.len() implies #[trigger] shown_before(
                m,
                t[a],
                t[b],
            ) by {
                if b < pos {
                    assert(shown_before(m, old_sorted[a], old_sorted[b]));
                } else if b == pos {
                    assert(shown_before(m, old_sorted[a], x));
                } else if a < pos {
                    assert(shown_before(m, old_sorted[a], old_sorted[b - 1]));
                } else if a == pos {
                    assert(shown_before(m, x, old_sorted[b - 1]));
                } else {
                    assert(shown_before(m, old_sorted[a - 1], old_sorted[b - 1]));
                }
            }
            assert forall|j: int| 0 <= j < t.len() implies m.contains_key(#[trigger] t[j]) by {
                if j < pos {
                    assert(t[j] == old_sorted[j]);
                } else if j > pos {
                    assert(t[j] == old_sorted[j - 1]);
                }
            }
        }
        i = i + 1;
    }
    assert(ids@.subrange(0, i as int) =~= ids@);
    sorted
}

/// A chat over a message store, with the theme and the actions to draw it
/// with.
pub struct ChatWidget<'a, M, O> {
    state: &'a ChatState<M, O>,
    actions: Vec<MessageAction>,
    theme: ChatTheme,
}

impl<'a, M: ChatMessage, O: MessageObserver<M>> ChatWidget<'a, M, O> {
    pub closed spec fn spec_state(&self) -> &'a ChatState<M, O> {
        self.state
    }

    pub closed spec fn spec_actions(&self) -> Seq<MessageAction> {
        self.actions@
    }

    pub closed spec fn spec_theme(&self) -> ChatTheme {
        self.theme
    }

    /// A widget over `state` in the default theme on `palette`, with no
    /// actions.
    pub fn new(palette: &BasePalette, state: &'a ChatState<M, O>) -> (r: Self)
        ensures
            r.spec_state() == state,
            r.spec_actions() == Seq::<MessageAction>::empty(),
            is_default_theme(r.spec_theme(), *palette),
    {
        ChatWidget { state, actions: Vec::new(), theme: ChatTheme::get_default(palette) }
    }

    /// The same widget in `theme`.
    pub fn with_custom_theme(self, theme: ChatTheme) -> (r: Self)
        ensures
            r.spec_state() == self.spec_state(),
            r.spec_actions() == self.spec_actions(),
            r.spec_theme() == theme,
    {
        ChatWidget { state: self.state, actions: self.actions, theme }
    }

    /// The same widget with `actions` under each message.
    pub fn with_actions(self, actions: Vec<MessageAction>) -> (r: Self)
        ensures
            r.spec_state() == self.spec_state(),
            r.spec_actions() == actions@,
            r.spec_theme() == self.spec_theme(),
    {
        ChatWidget { state: self.state, actions, theme: self.theme }
    }

    /// Composes the conversation: every stored message once, in display
    /// order, each drawn in the style of its side of the conversation.
    pub fn view(self) -> (r: ChatView)
        ensures
            ({
                let m = self.spec_state().messages();
                &&& r.blocks@.len() == m.len()
                &&& is_display_order(m, r.blocks@.map_values(|b: MessageBlock| b.message_id))
                &&& forall|i: int|
                    #![trigger r.blocks@[i]]
                    0 <= i < r.blocks@.len() ==> is_rendered(
                        r.blocks@[i],
                        r.blocks@[i].message_id,
                        m[r.blocks@[i].message_id],
                        self.spec_theme(),
                        self.spec_actions(),
                    )
            }),
            r.spacing == self.spec_theme().spacing,
            r.padding == self.spec_theme().padding,
            r.background == self.spec_theme().background_color,
            r.scroll_id@ == SCROLLABLE_ID@,
    {
        let ghost m = self.state.messages();
        let ids = self.state.get_messages_ids();
        proof {
            assert forall|j: int| 0 <= j < ids@.len() implies m.contains_key(ids@[j]) by {
                assert(ids@.to_set().contains(ids@[j]));
            }
        }
        let order = display_order(self.state, &ids);
        let mut blocks: Vec<MessageBlock> = Vec::new();
        let mut i: usize = 0;
        while i < order.len()
            invariant
                i <= order@.len(),
                m == self.state.messages(),
                order@.to_set() == m.dom(),
                blocks@.len() == i,
                forall|j: int|
                    #![trigger blocks@[j]]
                    0 <= j < i ==> blocks@[j].message_id == order@[j] && is_rendered(
                        blocks@[j],
                        order@[j],
                        m[order@[j]],
                        self.theme,
                        self.actions@,
                    ),
            decreases order@.len() - i,
        {
            let id = order[i];
            assert(order@.to_set().contains(order@[i as int]));
            let msg = self.state.get_message(&id).unwrap();
            let block = render_message_owned(id, msg, &self.theme, &self.actions);
            blocks.push(block);
            i = i + 1;
        }
        assert(blocks@.map_values(|b: MessageBlock| b.message_id) =~= order@);
        ChatView {
            blocks,
            spacing: self.theme.spacing,
            padding: self.theme.padding,
            background: self.theme.background_color,
            scroll_id: SCROLLABLE_ID.to_owned(),
        }
    }
}

} // verus!
