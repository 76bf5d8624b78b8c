use vstd::prelude::*;

verus! {

/// An sRGB color with alpha, one byte per channel.
#[derive(Debug, Clone, Copy, PartialEq, Eq, Structural)]
pub struct Color {
    pub r: u8,
    pub g: u8,
    pub b: u8,
    pub a: u8,
}

/// A background color and the text color that reads on it.
#[derive(Debug, Clone, Copy, PartialEq, Eq, Structural)]
pub struct ColorPair {
    pub color: Color,
    pub text: Color,
}

/// The slots of the host's palette that the chat theme is derived from.
#[derive(Debug, Clone, Copy, PartialEq, Eq, Structural)]
pub struct BasePalette {
    pub base: ColorPair,
    pub weak: ColorPair,
    pub strong: ColorPair,
}

pub const DEFAULT_BORDER_RADIUS: u16 = 8;

pub const DEFAULT_MESSAGE_PADDING: u16 = 10;

pub const DEFAULT_AUTHOR_TEXT_SIZE: u16 = 14;

pub const DEFAULT_CONTENT_TEXT_SIZE: u16 = 16;

pub const DEFAULT_TIMESTAMP_TEXT_SIZE: u16 = 10;

pub const DEFAULT_SPACING: u16 = 10;

pub const DEFAULT_PADDING: u16 = 10;

/// Hours, minutes and seconds, 24-hour clock, zero-padded.
pub open spec fn default_time_format() -> Seq<char> {
    seq!['%', 'H', ':', '%', 'M', ':', '%', 'S']
}

/// How one message is drawn. Sizes and lengths are in logical pixels.
#[derive(Debug, Clone)]
pub struct MessageStyle {
    pub background: Color,
    pub text_color: Color,
    pub border_radius: u16,
    pub padding: u16,
    pub author_text_size: u16,
    pub content_text_size: u16,
    pub time_stamp_text_color: Color,
    pub timestamp_text_size: u16,
    pub time_stamp_format: String,
}

/// The look of the whole chat: one style for the user's own messages, one
/// for everybody else's, and the container around them.
#[derive(Debug, Clone)]
pub struct ChatTheme {
    pub own_message_style: MessageStyle,
    pub other_message_style: MessageStyle,
    pub background_color: Color,
    pub spacing: u16,
    pub padding: u16,
}

/// `s` is the default message style drawn on the color pair `pair`.
pub open spec fn is_default_style_on(s: MessageStyle, pair: ColorPair) -> bool {
    &&& s.background == pair.color
    &&& s.text_color == pair.text
    &&& s.time_stamp_text_color == pair.text
    &&& s.border_radius == DEFAULT_BORDER_RADIUS
    &&& s.padding == DEFAULT_MESSAGE_PADDING
    &&& s.author_text_size == DEFAULT_AUTHOR_TEXT_SIZE
    &&& s.content_text_size == DEFAULT_CONTENT_TEXT_SIZE
    &&& s.timestamp_text_size == DEFAULT_TIMESTAMP_TEXT_SIZE
    &&& s.time_stamp_format@ == default_time_format()
}

/// `t` is the default theme on `palette`: own messages on the strong slot,
/// everybody else's on the weak slot, the container on the base color.
pub open spec fn is_default_theme(t: ChatTheme, palette: BasePalette) -> bool {
    &&& is_default_style_on(t.own_message_style, palette.strong)
    &&& is_default_style_on(t.other_message_style, palette.weak)
    &&& t.background_color == palette.base.color
    &&& t.spacing == DEFAULT_SPACING
    &&& t.padding == DEFAULT_PADDING
}

impl MessageStyle {
    /// The default style on a background color pair.
    pub fn default_on(pair: ColorPair) -> (r: MessageStyle)
        ensures
            is_default_style_on(r, pair),
    {
        let format = "%H:%M:%S".to_owned();
        proof {
            reveal_strlit("%H:%M:%S");
            assert(format@ =~= default_time_format());
        }
        MessageStyle {
            background: pair.color,
            text_color: pair.text,
            time_stamp_text_color: pair.text,
            border_radius: DEFAULT_BORDER_RADIUS,
            padding: DEFAULT_MESSAGE_PADDING,
            author_text_size: DEFAULT_AUTHOR_TEXT_SIZE,
            content_text_size: DEFAULT_CONTENT_TEXT_SIZE,
            timestamp_text_size: DEFAULT_TIMESTAMP_TEXT_SIZE,
            time_stamp_format: format,
        }
    }

    /// A field-for-field copy.
    pub fn duplicate(&self) -> (r: MessageStyle)
        ensures
            r == *self,
    {
        MessageStyle {
            background: self.background,
            text_color: self.text_color,
            border_radius: self.border_radius,
            padding: self.padding,
            author_text_size: self.author_text_size,
            content_text_size: self.content_text_size,
            time_stamp_text_color: self.time_stamp_text_color,
            timestamp_text_size: self.timestamp_text_size,
            time_stamp_format: self.time_stamp_format.clone(),
        }
    }

    pub fn background(&self) -> (r: Color)
        ensures
            r == self.background,
    {
        self.background
    }

    pub fn text_color(&self) -> (r: Color)
        ensures
            r == self.text_color,
    {
        self.text_color
    }

    pub fn time_stamp_text_color(&self) -> (r: Color)
        ensures
            r == self.time_stamp_text_color,
    {
        self.time_stamp_text_color
    }

    pub fn border_radius(&self) -> (r: u16)
        ensures
            r == self.border_radius,
    {
        self.border_radius
    }

    pub fn padding(&self) -> (r: u16)
        ensures
            r == self.padding,
    {
        self.padding
    }

    pub fn author_text_size(&self) -> (r: u16)
        ensures
            r == self.author_text_size,
    {
        self.author_text_size
    }

    pub fn content_text_size(&self) -> (r: u16)
        ensures
            r == self.content_text_size,
    {
        self.content_text_size
    }

    pub fn timestamp_text_size(&self) -> (r: u16)
        ensures
            r == self.timestamp_text_size,
    {
        self.timestamp_text_size
    }

    pub fn time_stamp_format(&self) -> (r: &str)
        ensures
            r@ == self.time_stamp_format@,
    {
        self.time_stamp_format.as_str()
    }
}

impl ChatTheme {
    /// The default theme on a palette.
    pub fn get_default(palette: &BasePalette) -> (r: ChatTheme)
        ensures
            is_default_theme(r, *palette),
    {
        ChatTheme {
            own_message_style: MessageStyle::default_on(palette.strong),
            other_message_style: MessageStyle::default_on(palette.weak),
            background_color: palette.base.color,
            spacing: DEFAULT_SPACING,
            padding: DEFAULT_PADDING,
        }
    }

    /// The style of a message: the own style for the user's own messages,
    /// the other style for the rest.
    pub open spec fn spec_style_for(&self, is_own: bool) -> MessageStyle {
        if is_own {
            self.own_message_style
        } else {
            self.other_message_style
        }
    }

    pub fn style_for(&self, is_own: bool) -> (r: &MessageStyle)
        ensures
            *r == self.spec_style_for(is_own),
    {
        if is_own {
            &self.own_message_style
        } else {
            &self.other_message_style
        }
    }

    pub fn own_message_style(&self) -> (r: &MessageStyle)
        ensures
            *r == self.own_message_style,
    {
        &self.own_message_style
    }

    pub fn other_message_style(&self) -> (r: &MessageStyle)
        ensures
            *r == self.other_message_style,
    {
        &self.other_message_style
    }

    pub fn background_color(&self) -> (r: Color)
        ensures
            r == self.background_color,
    {
        self.background_color
    }

    pub fn spacing(&self) -> (r: u16)
        ensures
            r == self.spacing,
    {
        self.spacing
    }

    pub fn padding(&self) -> (r: u16)
        ensures
            r == self.padding,
    {
        self.padding
    }
}

} // verus!
