use kcore::console::{BuilderFunctions, Color, Message, MessageBuilder, Mode, Resolution, Type};
use kcore::text::Text;

fn as_string(t: &Text) -> String {
    String::from_utf8(t.as_bytes().to_vec()).unwrap()
}

fn section_string(m: &Message, i: usize) -> String {
    String::from_utf8(m.section(i).msg.as_bytes().to_vec()).unwrap()
}

#[test]
fn builder_chains_sections_and_colors() {
    let m = MessageBuilder::new()
        .message(&Text::from_str("Hello, "))
        .message(&Text::from_str("world"))
        .foreground_color(Color(0x0a, 0xee, 0x0a))
        .message(&Text::from_str("!\n"))
        .build();
    assert_eq!(m.section_count(), 3);
    assert_eq!(section_string(&m, 0), "Hello, ");
    assert_eq!(section_string(&m, 1), "world");
    assert_eq!(m.section(0).fgcolor, Color(0xee, 0xee, 0xee));
    assert_eq!(m.section(1).fgcolor, Color(0x0a, 0xee, 0x0a));
    assert_eq!(m.section(1).bgcolor, Color(0, 0, 0));
    assert_eq!(section_string(&m, 2), "!\n");
}

#[test]
fn mutating_builder_calls_match_the_chained_ones() {
    let mut b = MessageBuilder::new();
    assert!(b.is_empty());
    b.message_mut(&Text::from_str("Hello, "));
    assert!(!b.is_empty());
    b.message_mut(&Text::from_str("Metaverse"));
    b.foreground_color_mut(Color(0x0a, 0xee, 0x0a));
    b.background_color_mut(Color(1, 2, 3));
    b.message_mut(&Text::from_str("!\n"));
    let m = b.build();
    assert_eq!(m.section_count(), 3);
    assert_eq!(m.section(1).fgcolor, Color(0x0a, 0xee, 0x0a));
    assert_eq!(m.section(1).bgcolor, Color(1, 2, 3));
    assert_eq!(m.section(2).fgcolor, Color(0xee, 0xee, 0xee));
}

#[test]
fn color_calls_on_an_empty_builder_do_nothing() {
    let b = MessageBuilder::new().foreground_color(Color::red()).background_color(Color::blue());
    let m = b.build();
    assert_eq!(m.section_count(), 0);
}

#[test]
fn append_joins_two_builders_in_order() {
    let first = MessageBuilder::new().message(&Text::from_str("a"));
    let second = MessageBuilder::new().message(&Text::from_str("b")).message(
        &Text::from_str("c"),
    );
    let m = first.append(second).build();
    assert_eq!(m.section_count(), 3);
    assert_eq!(section_string(&m, 0), "a");
    assert_eq!(section_string(&m, 1), "b");
    assert_eq!(section_string(&m, 2), "c");
}

#[test]
fn from_message_resumes_building() {
    let m = MessageBuilder::new().message(&Text::from_str("x")).build();
    let m2 = MessageBuilder::from_message(m).message(&Text::from_str("y")).build();
    assert_eq!(m2.section_count(), 2);
    assert_eq!(section_string(&m2, 1), "y");
}

#[test]
fn builder_steps_as_data() {
    let mut b = MessageBuilder::new();
    b.apply_function(BuilderFunctions::Msg(Text::from_str("Hello, ")));
    b.apply_function(BuilderFunctions::Msg(Text::from_str("Metaverse")));
    b.apply_function(BuilderFunctions::FgColor(Color::green()));
    b.apply_function(BuilderFunctions::BgColor(Color::gray()));
    b.apply_function(BuilderFunctions::Msg(Text::from_str("!\n")));
    let m = b.build();
    assert_eq!(m.section_count(), 3);
    assert_eq!(m.section(1).fgcolor, Color(0x22, 0xee, 0x22));
    assert_eq!(m.section(1).bgcolor, Color(0xaa, 0xaa, 0xaa));
}

#[test]
fn message_text_concatenates_all_sections() {
    let m = MessageBuilder::new()
        .message(&Text::from_str("one "))
        .message(&Text::from_str("two"))
        .build();
    assert_eq!(as_string(&m.to_text()), "one two");
}

#[test]
fn message_duplicate_copies_sections() {
    let m = MessageBuilder::new().message(&Text::from_str("abc")).foreground_color(
        Color::pink(),
    ).build();
    let d = m.duplicate();
    assert_eq!(d.section_count(), 1);
    assert_eq!(section_string(&d, 0), "abc");
    assert_eq!(d.section(0).fgcolor, Color(0xee, 0x44, 0x66));
}

#[test]
fn color_packs_into_a_word() {
    assert_eq!(Color(0xee, 0x22, 0x22).to_u32(), 0x00ee2222);
    assert_eq!(Color(0, 0, 0).to_u32(), 0);
    assert_eq!(Color(0xff, 0xff, 0xff).to_u32(), 0x00ffffff);
    assert_eq!(Color(1, 2, 3).to_u32(), 0x00010203);
}

#[test]
fn named_colors_have_their_triples() {
    assert_eq!(Color::white(), Color(0xee, 0xee, 0xee));
    assert_eq!(Color::black(), Color(0, 0, 0));
    assert_eq!(Color::red(), Color(0xee, 0x22, 0x22));
    assert_eq!(Color::green(), Color(0x22, 0xee, 0x22));
    assert_eq!(Color::blue(), Color(0x22, 0x22, 0xee));
    assert_eq!(Color::yellow(), Color(0xee, 0xee, 0x22));
    assert_eq!(Color::orange(), Color(0xee, 0xaa, 0x22));
    assert_eq!(Color::purple(), Color(0xee, 0x22, 0xee));
    assert_eq!(Color::pink(), Color(0xee, 0x44, 0x66));
    assert_eq!(Color::gray(), Color(0xaa, 0xaa, 0xaa));
    assert_eq!(Color::default(), Color(0, 0, 0));
}

#[test]
fn console_type_codes_round_trip() {
    assert_eq!(Type::from_u8(1), Type::RawFramebuffer);
    assert_eq!(Type::from_u8(2), Type::Display);
    assert_eq!(Type::from_u8(3), Type::VirtualTerm);
    assert_eq!(Type::from_u8(0), Type::Invalid);
    assert_eq!(Type::from_u8(99), Type::Invalid);
    for t in [Type::Invalid, Type::RawFramebuffer, Type::Display, Type::VirtualTerm] {
        assert_eq!(Type::from_u8(t.code()), t);
    }
}

#[test]
fn console_mode_codes_round_trip() {
    assert_eq!(Mode::from_u8(1), Mode::Text);
    assert_eq!(Mode::from_u8(2), Mode::Graphics);
    assert_eq!(Mode::from_u8(0), Mode::Invalid);
    assert_eq!(Mode::from_u8(7), Mode::Invalid);
    for m in [Mode::Invalid, Mode::Text, Mode::Graphics] {
        assert_eq!(Mode::from_u8(m.code()), m);
    }
}

#[test]
fn resolution_is_plain_data() {
    let r = Resolution { width: 80, height: 25 };
    assert_eq!(r.width, 80);
    assert_eq!(r.height, 25);
}
