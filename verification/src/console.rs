//! Styled messages for a console sink: ordered sections of text, each
//! with a foreground and background color, assembled through a
//! builder. Rendering is the sink's business; here a message is pure
//! data.

use vstd::prelude::*;
use crate::array::GrowArray;
use crate::text::Text;

verus! {

/// An opaque red-green-blue triple.
#[derive(Clone, Copy, PartialEq, Eq, Structural, Default, Debug)]
pub struct Color(pub u8, pub u8, pub u8);

impl Color {
    pub fn white() -> (c: Color)
        ensures
            c == Color(0xee, 0xee, 0xee),
    {
        Color(0xee, 0xee, 0xee)
    }

    pub fn black() -> (c: Color)
        ensures
            c == Color(0, 0, 0),
    {
        Color(0, 0, 0)
    }

    pub fn red() -> (c: Color)
        ensures
            c == Color(0xee, 0x22, 0x22),
    {
        Color(0xee, 0x22, 0x22)
    }

    pub fn green() -> (c: Color)
        ensures
            c == Color(0x22, 0xee, 0x22),
    {
        Color(0x22, 0xee, 0x22)
    }

    pub fn blue() -> (c: Color)
        ensures
            c == Color(0x22, 0x22, 0xee),
    {
        Color(0x22, 0x22, 0xee)
    }

    pub fn yellow() -> (c: Color)
        ensures
            c == Color(0xee, 0xee, 0x22),
    {
        Color(0xee, 0xee, 0x22)
    }

    pub fn orange() -> (c: Color)
        ensures
            c == Color(0xee, 0xaa, 0x22),
    {
        Color(0xee, 0xaa, 0x22)
    }

    pub fn purple() -> (c: Color)
        ensures
            c == Color(0xee, 0x22, 0xee),
    {
        Color(0xee, 0x22, 0xee)
    }

    pub fn pink() -> (c: Color)
        ensures
            c == Color(0xee, 0x44, 0x66),
    {
        Color(0xee, 0x44, 0x66)
    }

    pub fn gray() -> (c: Color)
        ensures
            c == Color(0xaa, 0xaa, 0xaa),
    {
        Color(0xaa, 0xaa, 0xaa)
    }

    /// The triple packed into one word, red in the highest of the
    /// three occupied bytes.
    pub fn to_u32(&self) -> (r: u32)
        ensures
            r == (self.0 as int) * 0x10000 + (self.1 as int) * 0x100 + (self.2 as int),
    {
        let r = (self.0 as u32) << 16u32 | (self.1 as u32) << 8u32 | (self.2 as u32);
        proof {
            let a = self.0 as u32;
            let b = self.1 as u32;
            let c = self.2 as u32;
            assert(a < 256 && b < 256 && c < 256 ==> (a << 16u32 | b << 8u32 | c) == a * 0x10000
                + b * 0x100 + c) by (bit_vector);
        }
        r
    }
}

/// One self-contained, independently printable unit of a message: a
/// text with its colors. Its abstraction is the triple of the text's
/// characters, the foreground and the background color.
pub struct MessageSection {
    pub msg: Text,
    pub fgcolor: Color,
    pub bgcolor: Color,
}

impl View for MessageSection {
    type V = (Seq<char>, Color, Color);

    open spec fn view(&self) -> (Seq<char>, Color, Color) {
        (self.msg@, self.fgcolor, self.bgcolor)
    }
}

impl MessageSection {
    /// A fresh section with the same text and colors.
    pub fn duplicate(&self) -> (s: Self)
        ensures
            s@ == self@,
    {
        MessageSection { msg: self.msg.duplicate(), fgcolor: self.fgcolor, bgcolor: self.bgcolor }
    }
}

impl Default for MessageSection {
    /// An empty text in the all-black default colors.
    fn default() -> (s: Self)
        ensures
            s@ == (Seq::<char>::empty(), Color(0, 0, 0), Color(0, 0, 0)),
    {
        MessageSection { msg: Text::new(), fgcolor: Color(0, 0, 0), bgcolor: Color(0, 0, 0) }
    }
}

/// The characters of a run of sections, in order.
pub open spec fn sections_text(secs: Seq<(Seq<char>, Color, Color)>) -> Seq<char>
    decreases secs.len(),
{
    if secs.len() == 0 {
        Seq::empty()
    } else {
        sections_text(secs.drop_last()) + secs.last().0
    }
}

/// Longer runs of sections never carry less text: the text of a
/// prefix is never longer than the text of the whole run.
pub proof fn lemma_sections_text_prefix(secs: Seq<(Seq<char>, Color, Color)>, j: int)
    requires
        0 <= j <= secs.len(),
    ensures
        sections_text(secs.take(j)).len() <= sections_text(secs).len(),
    decreases secs.len() - j,
{
    if j == secs.len() {
        assert(secs.take(j) =~= secs);
    } else {
        lemma_sections_text_prefix(secs, j + 1);
        assert(secs.take(j + 1).drop_last() =~= secs.take(j));
        assert(secs.take(j + 1).last() == secs[j]);
    }
}

/// An ordered run of sections, handed as a unit to the console sink.
pub struct Message {
    sections: GrowArray<MessageSection>,
}

impl View for Message {
    type V = Seq<(Seq<char>, Color, Color)>;

    closed spec fn view(&self) -> Seq<(Seq<char>, Color, Color)> {
        self.sections@.map(|i: int, s: MessageSection| s@)
    }
}

impl Message {
    pub fn section_count(&self) -> (n: usize)
        ensures
            n == self@.len(),
    {
        self.sections.len()
    }

    /// Borrows one section.
    pub fn section(&self, index: usize) -> (s: &MessageSection)
        requires
            index < self@.len(),
        ensures
            s@ == self@[index as int],
    {
        self.sections.get(index)
    }

    /// A fresh message with the same sections.
    pub fn duplicate(&self) -> (m: Self)
        requires
            self@.len() < usize::MAX as int / 2,
        ensures
            m@ == self@,
    {
        let n = self.sections.len();
        let mut out: GrowArray<MessageSection> = GrowArray::new();
        let mut i: usize = 0;
        while i < n
            invariant
                i <= n,
                n == self@.len(),
                n < usize::MAX as int / 2,
                out@.len() == i,
                forall|k: int| 0 <= k < i ==> #[trigger] out@[k]@ == self@[k],
            decreases n - i,
        {
            out.push(self.sections.get(i).duplicate());
            i = i + 1;
        }
        let m = Message { sections: out };
        proof {
            assert(m@ =~= self@);
        }
        m
    }

    /// All the sections' characters, in order, without the colors.
    pub fn to_text(&self) -> (t: Text)
        requires
            sections_text(self@).len() < usize::MAX as int / 2,
        ensures
            t@ == sections_text(self@),
    {
        let n = self.sections.len();
        let mut t = Text::new();
        let mut i: usize = 0;
        while i < n
            invariant
                i <= n,
                n == self@.len(),
                sections_text(self@).len() < usize::MAX as int / 2,
                t@ == sections_text(self@.take(i as int)),
            decreases n - i,
        {
            proof {
                lemma_sections_text_prefix(self@, i + 1);
                assert(self@.take(i + 1).drop_last() =~= self@.take(i as int));
                assert(self@.take(i + 1).last() == self@[i as int]);
            }
            t.append(self.sections.get(i).msg.duplicate());
            i = i + 1;
        }
        proof {
            assert(self@.take(n as int) =~= self@);
        }
        t
    }
}

impl Default for Message {
    /// A message with no sections.
    fn default() -> (m: Self)
        ensures
            m@ == Seq::<(Seq<char>, Color, Color)>::empty(),
    {
        let m = Message { sections: GrowArray::new() };
        proof {
            assert(m@ =~= Seq::<(Seq<char>, Color, Color)>::empty());
        }
        m
    }
}

/// Chained construction of a message: each `message` call opens a new
/// section with the default colors, and the color calls repaint the
/// most recently appended section.
pub struct MessageBuilder {
    msg: Message,
}

impl View for MessageBuilder {
    type V = Seq<(Seq<char>, Color, Color)>;

    closed spec fn view(&self) -> Seq<(Seq<char>, Color, Color)> {
        self.msg@
    }
}

/// One building step, as data: for assembling a message from a list
/// of steps instead of a chain of calls.
pub enum BuilderFunctions {
    Msg(Text),
    FgColor(Color),
    BgColor(Color),
}

impl MessageBuilder {
    pub fn new() -> (b: Self)
        ensures
            b@ == Seq::<(Seq<char>, Color, Color)>::empty(),
    {
        MessageBuilder { msg: Message { sections: GrowArray::new() } }
    }

    pub fn is_empty(&self) -> (e: bool)
        ensures
            e == (self@.len() == 0),
    {
        self.msg.sections.is_empty()
    }

    pub fn section_count(&self) -> (n: usize)
        ensures
            n == self@.len(),
    {
        self.msg.sections.len()
    }

    /// Resumes building from an existing message.
    pub fn from_message(msg: Message) -> (b: Self)
        ensures
            b@ == msg@,
    {
        MessageBuilder { msg }
    }

    /// Opens a new section holding `text`, with the default white
    /// foreground on black.
    pub fn message(self, text: &Text) -> (b: Self)
        requires
            self@.len() < usize::MAX as int / 2,
        ensures
            b@ == self@.push((text@, Color(0xee, 0xee, 0xee), Color(0, 0, 0))),
    {
        let mut b = self;
        b.message_mut(text);
        b
    }

    /// `message`, in place.
    pub fn message_mut(&mut self, text: &Text)
        requires
            old(self)@.len() < usize::MAX as int / 2,
        ensures
            final(self)@ == old(self)@.push((text@, Color(0xee, 0xee, 0xee), Color(0, 0, 0))),
    {
        self.msg.sections.push(
            MessageSection {
                msg: text.duplicate(),
                fgcolor: Color(0xee, 0xee, 0xee),
                bgcolor: Color(0, 0, 0),
            },
        );
        proof {
            assert(final(self)@ =~= old(self)@.push(
                (text@, Color(0xee, 0xee, 0xee), Color(0, 0, 0)),
            ));
        }
    }

    /// Repaints the background of the most recently appended section;
    /// on an empty builder this does nothing.
    pub fn background_color(self, color: Color) -> (b: Self)
        ensures
            self@.len() == 0 ==> b@ == self@,
            self@.len() > 0 ==> b@ == self@.update(
                self@.len() - 1,
                (self@.last().0, self@.last().1, color),
            ),
    {
        let mut b = self;
        b.background_color_mut(color);
        b
    }

    /// `background_color`, in place.
    pub fn background_color_mut(&mut self, color: Color)
        ensures
            old(self)@.len() == 0 ==> final(self)@ == old(self)@,
            old(self)@.len() > 0 ==> final(self)@ == old(self)@.update(
                old(self)@.len() - 1,
                (old(self)@.last().0, old(self)@.last().1, color),
            ),
    {
        if self.msg.sections.len() > 0 {
            let s = self.msg.sections.last_mut();
            s.bgcolor = color;
            proof {
                assert(final(self)@ =~= old(self)@.update(
                    old(self)@.len() - 1,
                    (old(self)@.last().0, old(self)@.last().1, color),
                ));
            }
        }
    }

    /// Repaints the foreground of the most recently appended section;
    /// on an empty builder this does nothing.
    pub fn foreground_color(self, color: Color) -> (b: Self)
        ensures
            self@.len() == 0 ==> b@ == self@,
            self@.len() > 0 ==> b@ == self@.update(
                self@.len() - 1,
                (self@.last().0, color, self@.last().2),
            ),
    {
        let mut b = self;
        b.foreground_color_mut(color);
        b
    }

    /// `foreground_color`, in place.
    pub fn foreground_color_mut(&mut self, color: Color)
        ensures
            old(self)@.len() == 0 ==> final(self)@ == old(self)@,
            old(self)@.len() > 0 ==> final(self)@ == old(self)@.update(
                old(self)@.len() - 1,
                (old(self)@.last().0, color, old(self)@.last().2),
            ),
    {
        if self.msg.sections.len() > 0 {
            let s = self.msg.sections.last_mut();
            s.fgcolor = color;
            proof {
                assert(final(self)@ =~= old(self)@.update(
                    old(self)@.len() - 1,
                    (old(self)@.last().0, color, old(self)@.last().2),
                ));
            }
        }
    }

    /// Moves the sections of `builder` onto the end of `self`'s.
    pub fn append(self, builder: Self) -> (b: Self)
        requires
            self@.len() + builder@.len() <= usize::MAX as int / 2,
        ensures
            b@ == self@ + builder@,
    {
        let mut b = self;
        b.msg.sections.append(builder.msg.sections);
        proof {
            assert(b@ =~= self@ + builder@);
        }
        b
    }

    /// Performs one building step given as data.
    pub fn apply_function(&mut self, f: BuilderFunctions)
        requires
            old(self)@.len() < usize::MAX as int / 2,
        ensures
            (f matches BuilderFunctions::Msg(t) ==> final(self)@ == old(self)@.push(
                (t@, Color(0xee, 0xee, 0xee), Color(0, 0, 0)),
            )),
            (f matches BuilderFunctions::FgColor(c) ==> (if old(self)@.len() == 0 {
                final(self)@ == old(self)@
            } else {
                final(self)@ == old(self)@.update(
                    old(self)@.len() - 1,
                    (old(self)@.last().0, c, old(self)@.last().2),
                )
            })),
            (f matches BuilderFunctions::BgColor(c) ==> (if old(self)@.len() == 0 {
                final(self)@ == old(self)@
            } else {
                final(self)@ == old(self)@.update(
                    old(self)@.len() - 1,
                    (old(self)@.last().0, old(self)@.last().1, c),
                )
            })),
    {
        match f {
            BuilderFunctions::Msg(t) => {
                self.msg.sections.push(
                    MessageSection {
                        msg: t,
                        fgcolor: Color(0xee, 0xee, 0xee),
                        bgcolor: Color(0, 0, 0),
                    },
                );
                proof {
                    assert(final(self)@ =~= old(self)@.push(
                        (final(self)@.last().0, Color(0xee, 0xee, 0xee), Color(0, 0, 0)),
                    ));
                }
            },
            BuilderFunctions::FgColor(c) => {
                self.foreground_color_mut(c);
            },
            BuilderFunctions::BgColor(c) => {
                self.background_color_mut(c);
            },
        }
    }

    /// Hands over the finished message.
    pub fn build(self) -> (m: Message)
        ensures
            m@ == self@,
    {
        self.msg
    }
}

/// What a console can show itself as.
#[derive(Clone, Copy, PartialEq, Eq, Structural, Debug)]
pub enum Type {
    Invalid,
    RawFramebuffer,
    Display,
    VirtualTerm,
}

/// The console type a host code stands for; unknown codes are
/// `Invalid`.
pub open spec fn spec_type_from(value: u8) -> Type {
    if value == 1 {
        Type::RawFramebuffer
    } else if value == 2 {
        Type::Display
    } else if value == 3 {
        Type::VirtualTerm
    } else {
        Type::Invalid
    }
}

impl Type {
    pub fn from_u8(value: u8) -> (t: Type)
        ensures
            t == spec_type_from(value),
    {
        match value {
            1 => Type::RawFramebuffer,
            2 => Type::Display,
            3 => Type::VirtualTerm,
            _ => Type::Invalid,
        }
    }

    /// The code the host uses for this type.
    pub fn code(&self) -> (v: u8)
        ensures
            spec_type_from(v) == *self || (v == 0 && *self is Invalid),
    {
        match *self {
            Type::Invalid => 0,
            Type::RawFramebuffer => 1,
            Type::Display => 2,
            Type::VirtualTerm => 3,
        }
    }
}

/// How a console is driven.
#[derive(Clone, Copy, PartialEq, Eq, Structural, Debug)]
pub enum Mode {
    Invalid,
    Text,
    Graphics,
}

/// The console mode a host code stands for; unknown codes are
/// `Invalid`.
pub open spec fn spec_mode_from(value: u8) -> Mode {
    if value == 1 {
        Mode::Text
    } else if value == 2 {
        Mode::Graphics
    } else {
        Mode::Invalid
    }
}

impl Mode {
    pub fn from_u8(value: u8) -> (m: Mode)
        ensures
            m == spec_mode_from(value),
    {
        match value {
            1 => Mode::Text,
            2 => Mode::Graphics,
            _ => Mode::Invalid,
        }
    }

    /// The code the host uses for this mode.
    pub fn code(&self) -> (v: u8)
        ensures
            spec_mode_from(v) == *self || (v == 0 && *self is Invalid),
    {
        match *self {
            Mode::Invalid => 0,
            Mode::Text => 1,
            Mode::Graphics => 2,
        }
    }
}

/// A console's size in character cells or pixels.
#[derive(Clone, Copy, PartialEq, Eq, Structural)]
pub struct Resolution {
    pub width: usize,
    pub height: usize,
}

} // verus!
