//! The colours of the states, and colours as text.
//!
//! The components of the default colours are ten-thousandths. A face may give a state colours of
//! its own; `FaceSpec::accent`, `FaceSpec::fill` and `FaceSpec::eye_color` know of them.

use vstd::prelude::*;

use crate::session::SessionState;
use crate::text::{
    lemma_nothing_to_trim, lemma_trimmed_is_trimmed, to_chars, trim_chars, trimmed, white,
};

verus! {

/// A colour of the default palette, in ten-thousandths.
#[derive(Debug, Clone, Copy, PartialEq, Eq, Structural)]
pub struct Rgb {
    pub r: u32,
    pub g: u32,
    pub b: u32,
}

/// A colour in 256 steps.
#[derive(Debug, Clone, Copy, PartialEq, Eq, Structural)]
pub struct Hex {
    pub r: u8,
    pub g: u8,
    pub b: u8,
}

/// A colour as drawn: from the default palette, or as a face gives it.
#[derive(Debug, Clone, Copy, PartialEq, Eq, Structural)]
pub enum Paint {
    Default(Rgb),
    Own(Hex),
}

/// The colour of a state: of its border, its glow, its sign.
pub open spec fn accent_of(s: SessionState) -> Rgb {
    match s {
        SessionState::Working => Rgb { r: 0, g: 8836, b: 8863 },
        SessionState::WaitUser => Rgb { r: 9839, g: 7520, b: 2679 },
        SessionState::WaitAgent => Rgb { r: 6116, g: 5843, b: 9957 },
        SessionState::Idle => Rgb { r: 4758, g: 5046, b: 5510 },
        SessionState::Done => Rgb { r: 3768, g: 8571, b: 5371 },
        SessionState::Error => Rgb { r: 8642, g: 3679, b: 3474 },
    }
}

/// The colour of the body in a state.
pub open spec fn fill_of(s: SessionState) -> Rgb {
    match s {
        SessionState::Working => Rgb { r: 1425, g: 1682, b: 2698 },
        SessionState::WaitUser => Rgb { r: 2292, g: 1447, b: 2292 },
        SessionState::WaitAgent => Rgb { r: 1562, g: 1354, b: 2385 },
        SessionState::Idle => Rgb { r: 1255, g: 1239, b: 1646 },
        SessionState::Done => Rgb { r: 1177, g: 1691, b: 2694 },
        SessionState::Error => Rgb { r: 1717, g: 1062, b: 2032 },
    }
}

/// The colour of a state: of its border, its glow, its sign.
pub fn accent(s: SessionState) -> (r: Rgb)
    ensures
        r == accent_of(s),
{
    match s {
        SessionState::Working => Rgb { r: 0, g: 8836, b: 8863 },
        SessionState::WaitUser => Rgb { r: 9839, g: 7520, b: 2679 },
        SessionState::WaitAgent => Rgb { r: 6116, g: 5843, b: 9957 },
        SessionState::Idle => Rgb { r: 4758, g: 5046, b: 5510 },
        SessionState::Done => Rgb { r: 3768, g: 8571, b: 5371 },
        SessionState::Error => Rgb { r: 8642, g: 3679, b: 3474 },
    }
}

/// The colour of the body in a state: far darker than the accent, with a hint of it.
pub fn face_fill(s: SessionState) -> (r: Rgb)
    ensures
        r == fill_of(s),
{
    match s {
        SessionState::Working => Rgb { r: 1425, g: 1682, b: 2698 },
        SessionState::WaitUser => Rgb { r: 2292, g: 1447, b: 2292 },
        SessionState::WaitAgent => Rgb { r: 1562, g: 1354, b: 2385 },
        SessionState::Idle => Rgb { r: 1255, g: 1239, b: 1646 },
        SessionState::Done => Rgb { r: 1177, g: 1691, b: 2694 },
        SessionState::Error => Rgb { r: 1717, g: 1062, b: 2032 },
    }
}

/// The dark ground.
pub open spec fn ink_color() -> Rgb {
    Rgb { r: 431, g: 353, b: 706 }
}

/// Eyes.
pub open spec fn open_eye() -> Rgb {
    Rgb { r: 9333, g: 9490, b: 10000 }
}

/// Closed eyes.
pub open spec fn closed_eye() -> Rgb {
    Rgb { r: 7765, g: 8000, b: 8588 }
}

/// Eyes after an error.
pub open spec fn error_eye() -> Rgb {
    Rgb { r: 10000, g: 6335, b: 6006 }
}

/// The dark ground.
pub fn ink() -> (r: Rgb)
    ensures
        r == ink_color(),
{
    Rgb { r: 431, g: 353, b: 706 }
}

/// How opaque a figure is, in hundredths.
pub open spec fn opacity_of(s: SessionState) -> u32 {
    match s {
        SessionState::Idle => 55,
        SessionState::Done => 90,
        _ => 100,
    }
}

/// How opaque a figure is, in hundredths: idle and done figures are dimmed.
pub fn face_opacity(s: SessionState) -> (r: u32)
    ensures
        r == opacity_of(s),
{
    match s {
        SessionState::Idle => 55,
        SessionState::Done => 90,
        _ => 100,
    }
}

// ---- colours as text ------------------------------------------------------------------------

/// The nearest of 256 steps to a component in ten-thousandths; half a step counts as a whole
/// one, and what is over the range as its end.
pub open spec fn step_of(n: u32) -> u8 {
    if n >= 10000 {
        255
    } else {
        ((n * 255 + 5000) / 10000) as u8
    }
}

/// A colour as drawn, in 256 steps.
pub open spec fn paint_hex(p: Paint) -> Hex {
    match p {
        Paint::Default(c) => Hex { r: step_of(c.r), g: step_of(c.g), b: step_of(c.b) },
        Paint::Own(c) => c,
    }
}

fn nearest_step(n: u32) -> (r: u8)
    ensures
        r == step_of(n),
{
    if n >= 10000 {
        255
    } else {
        ((n * 255 + 5000) / 10000) as u8
    }
}

impl Paint {
    /// The colour in 256 steps.
    pub fn hex(self) -> (r: Hex)
        ensures
            r == paint_hex(self),
    {
        match self {
            Paint::Default(c) => Hex {
                r: nearest_step(c.r),
                g: nearest_step(c.g),
                b: nearest_step(c.b),
            },
            Paint::Own(c) => c,
        }
    }
}

/// The value of a hexadecimal digit.
pub open spec fn digit_value(c: char) -> Option<int> {
    if '0' <= c <= '9' {
        Some(c as u32 - 0x30)
    } else if 'a' <= c <= 'f' {
        Some(c as u32 - 0x57)
    } else if 'A' <= c <= 'F' {
        Some(c as u32 - 0x37)
    } else {
        None
    }
}

/// The value of two hexadecimal digits.
pub open spec fn byte_value(hi: char, lo: char) -> u8 {
    (digit_value(hi)->0 * 16 + digit_value(lo)->0) as u8
}

/// Whether a text is hexadecimal digits only.
pub open spec fn all_hex(s: Seq<char>) -> bool {
    forall|i: int| 0 <= i < s.len() ==> digit_value(#[trigger] s[i]) is Some
}

/// The colour that a text gives: `#rrggbb`, or `#rgb` for `#rrggbb` with every digit doubled.
pub open spec fn hex_of(text: Seq<char>) -> Option<Hex> {
    let t = trimmed(text);
    if t.len() == 0 || t[0] != '#' || !all_hex(t.skip(1)) {
        None
    } else if t.len() == 7 {
        Some(
            Hex {
                r: byte_value(t[1], t[2]),
                g: byte_value(t[3], t[4]),
                b: byte_value(t[5], t[6]),
            },
        )
    } else if t.len() == 4 {
        Some(
            Hex {
                r: byte_value(t[1], t[1]),
                g: byte_value(t[2], t[2]),
                b: byte_value(t[3], t[3]),
            },
        )
    } else {
        None
    }
}

/// The hexadecimal digit, in lower case, with value `d`.
pub open spec fn lower_hex(d: int) -> char {
    if d < 10 {
        (0x30 + d) as char
    } else {
        (0x57 + d) as char
    }
}

/// Two hexadecimal digits.
pub open spec fn byte_text(b: u8) -> Seq<char> {
    seq![lower_hex(b as int / 16), lower_hex(b as int % 16)]
}

/// A colour as text.
pub open spec fn hex_text(c: Hex) -> Seq<char> {
    seq!['#'] + byte_text(c.r) + byte_text(c.g) + byte_text(c.b)
}

fn digit(c: char) -> (r: Option<u8>)
    ensures
        r is Some == digit_value(c) is Some,
        r matches Some(d) ==> d == digit_value(c)->0 && d < 16,
{
    let n: u32 = c as u32;
    if '0' <= c && c <= '9' {
        Some((n - 0x30) as u8)
    } else if 'a' <= c && c <= 'f' {
        Some((n - 0x57) as u8)
    } else if 'A' <= c && c <= 'F' {
        Some((n - 0x37) as u8)
    } else {
        None
    }
}

fn byte(hi: char, lo: char) -> (r: u8)
    requires
        digit_value(hi) is Some,
        digit_value(lo) is Some,
    ensures
        r == byte_value(hi, lo),
{
    match (digit(hi), digit(lo)) {
        (Some(h), Some(l)) => h * 16 + l,
        _ => 0,
    }
}

/// The colour that a text gives, if it gives one. White space around it and capital letters are
/// accepted, a missing `#` is not.
pub fn parse_hex(s: &str) -> (r: Option<Hex>)
    ensures
        r == hex_of(s@),
{
    let t = trim_chars(&to_chars(s));
    if t.len() == 0 || t[0] != '#' {
        return None;
    }
    let mut i: usize = 1;
    while i < t.len()
        invariant
            1 <= i <= t@.len(),
            t@ == trimmed(s@),
            t@[0] == '#',
            forall|k: int| 1 <= k < i ==> digit_value(#[trigger] t@[k]) is Some,
        decreases t@.len() - i,
    {
        if digit(t[i]).is_none() {
            assert(t@.skip(1)[i - 1] == t@[i as int]);
            assert(!all_hex(t@.skip(1)));
            return None;
        }
        i += 1;
    }
    assert(all_hex(t@.skip(1))) by {
        assert forall|k: int| 0 <= k < t@.skip(1).len() implies digit_value(
            #[trigger] t@.skip(1)[k],
        ) is Some by {
            assert(t@.skip(1)[k] == t@[k + 1]);
        }
    }
    if t.len() == 7 {
        Some(Hex { r: byte(t[1], t[2]), g: byte(t[3], t[4]), b: byte(t[5], t[6]) })
    } else if t.len() == 4 {
        Some(Hex { r: byte(t[1], t[1]), g: byte(t[2], t[2]), b: byte(t[3], t[3]) })
    } else {
        None
    }
}

fn lower_hex_char(d: u8) -> (r: char)
    requires
        d < 16,
    ensures
        r == lower_hex(d as int),
{
    if d < 10 {
        (0x30u8 + d) as char
    } else {
        (0x57u8 + d) as char
    }
}

/// A colour as text, `#rrggbb`.
pub fn to_hex(c: Hex) -> (r: String)
    ensures
        r@ == hex_text(c),
{
    let mut out = String::new();
    out.push('#');
    out.push(lower_hex_char(c.r / 16));
    out.push(lower_hex_char(c.r % 16));
    out.push(lower_hex_char(c.g / 16));
    out.push(lower_hex_char(c.g % 16));
    out.push(lower_hex_char(c.b / 16));
    out.push(lower_hex_char(c.b % 16));
    assert(out@ =~= hex_text(c));
    out
}

// ---- laws -----------------------------------------------------------------------------------

/// A colour is read back from its text.
pub proof fn law_colors_round_trip(c: Hex)
    ensures
        hex_of(hex_text(c)) == Some(c),
{
    let t = hex_text(c);
    assert(t.len() == 7);
    lemma_byte_text(c.r);
    lemma_byte_text(c.g);
    lemma_byte_text(c.b);
    assert(t[1] == byte_text(c.r)[0] && t[2] == byte_text(c.r)[1]);
    assert(t[3] == byte_text(c.g)[0] && t[4] == byte_text(c.g)[1]);
    assert(t[5] == byte_text(c.b)[0] && t[6] == byte_text(c.b)[1]);
    lemma_nothing_to_trim(t);
    assert forall|i: int| 0 <= i < t.skip(1).len() implies digit_value(#[trigger] t.skip(1)[i]) is
        Some by {
        assert(t.skip(1)[i] == t[i + 1]);
    }
}

proof fn lemma_byte_text(b: u8)
    ensures
        digit_value(byte_text(b)[0]) is Some,
        digit_value(byte_text(b)[1]) is Some,
        byte_value(byte_text(b)[0], byte_text(b)[1]) == b,
        !white(byte_text(b)[1]),
{
    let hi = b as int / 16;
    let lo = b as int % 16;
    assert(digit_value(lower_hex(hi)) == Some(hi));
    assert(digit_value(lower_hex(lo)) == Some(lo));
    assert(hi * 16 + lo == b);
}

/// White space around a colour does not matter.
pub proof fn law_padding_does_not_matter(text: Seq<char>)
    ensures
        hex_of(trimmed(text)) == hex_of(text),
{
    lemma_trimmed_is_trimmed(text);
}

/// The colours of the states. Work is cyan, the need for the user amber, agents are purple, an
/// idle session is gray, a finished turn green and an error red.
pub proof fn law_the_colors_of_the_states()
    ensures
        accent_of(SessionState::Working) == (Rgb { r: 0, g: 8836, b: 8863 }),
        accent_of(SessionState::WaitUser) == (Rgb { r: 9839, g: 7520, b: 2679 }),
        accent_of(SessionState::WaitAgent) == (Rgb { r: 6116, g: 5843, b: 9957 }),
        accent_of(SessionState::Idle) == (Rgb { r: 4758, g: 5046, b: 5510 }),
        accent_of(SessionState::Done) == (Rgb { r: 3768, g: 8571, b: 5371 }),
        accent_of(SessionState::Error) == (Rgb { r: 8642, g: 3679, b: 3474 }),
        is_cyan(accent_of(SessionState::Working)),
        is_amber(accent_of(SessionState::WaitUser)),
        is_purple(accent_of(SessionState::WaitAgent)),
        is_gray(accent_of(SessionState::Idle)),
        is_green(accent_of(SessionState::Done)),
        is_red(accent_of(SessionState::Error)),
{
}

/// Little red, and green and blue alike.
pub open spec fn is_cyan(c: Rgb) -> bool {
    c.r + 3000 < c.g && c.r + 3000 < c.b && c.g < c.b + 1000 && c.b < c.g + 1000
}

/// More red than green, and more green than blue.
pub open spec fn is_amber(c: Rgb) -> bool {
    c.g + 1000 < c.r && c.b + 3000 < c.g
}

/// More blue than red, and green the least.
pub open spec fn is_purple(c: Rgb) -> bool {
    c.r + 3000 < c.b && c.g < c.r
}

/// All alike.
pub open spec fn is_gray(c: Rgb) -> bool {
    &&& c.r < c.g + 1000 && c.g < c.r + 1000
    &&& c.r < c.b + 1000 && c.b < c.r + 1000
    &&& c.g < c.b + 1000 && c.b < c.g + 1000
}

/// Green the most by far.
pub open spec fn is_green(c: Rgb) -> bool {
    c.r + 3000 < c.g && c.b + 3000 < c.g
}

/// Red the most by far.
pub open spec fn is_red(c: Rgb) -> bool {
    c.g + 3000 < c.r && c.b + 3000 < c.r
}

/// The colours of the bodies, all of them dark; and the ground, darker still.
pub proof fn law_the_colors_of_the_bodies(s: SessionState)
    ensures
        fill_of(SessionState::Working) == (Rgb { r: 1425, g: 1682, b: 2698 }),
        fill_of(SessionState::WaitUser) == (Rgb { r: 2292, g: 1447, b: 2292 }),
        fill_of(SessionState::WaitAgent) == (Rgb { r: 1562, g: 1354, b: 2385 }),
        fill_of(SessionState::Idle) == (Rgb { r: 1255, g: 1239, b: 1646 }),
        fill_of(SessionState::Done) == (Rgb { r: 1177, g: 1691, b: 2694 }),
        fill_of(SessionState::Error) == (Rgb { r: 1717, g: 1062, b: 2032 }),
        ink_color() == (Rgb { r: 431, g: 353, b: 706 }),
        fill_of(s).r < 3000 && fill_of(s).g < 3000 && fill_of(s).b < 3000,
        ink_color().r < fill_of(s).r && ink_color().g < fill_of(s).g && ink_color().b < fill_of(
            s,
        ).b,
{
}

/// The colours of the eyes: bright when open, dimmer when closed, red after an error.
pub proof fn law_the_colors_of_the_eyes()
    ensures
        open_eye() == (Rgb { r: 9333, g: 9490, b: 10000 }),
        closed_eye() == (Rgb { r: 7765, g: 8000, b: 8588 }),
        error_eye() == (Rgb { r: 10000, g: 6335, b: 6006 }),
        closed_eye().r < open_eye().r && closed_eye().g < open_eye().g && closed_eye().b
            < open_eye().b,
        is_red(error_eye()),
{
}

/// An idle figure is faded, a finished one a little, and any other not at all.
pub proof fn law_only_the_finished_fade(s: SessionState)
    ensures
        opacity_of(SessionState::Idle) == 55,
        opacity_of(SessionState::Done) == 90,
        s != SessionState::Idle && s != SessionState::Done ==> opacity_of(s) == 100,
{
}

/// A component is drawn as the nearest of 256 steps; what is over the range, as its end.
pub proof fn law_a_component_is_rounded(n: u32)
    ensures
        n <= 10000 ==> -5000 <= step_of(n) * 10000 - n * 255 <= 5000,
        n >= 10000 ==> step_of(n) == 255,
        step_of(0) == 0,
{
    if n < 10000 {
        let m = n * 255 + 5000;
        assert(m / 10000 * 10000 <= m < m / 10000 * 10000 + 10000) by (nonlinear_arith);
        assert(m / 10000 <= 255);
    }
}

/// A colour of a face is drawn as it is given, and one of the palette component by component.
pub proof fn law_colors_are_drawn_as_given(c: Hex, d: Rgb)
    ensures
        paint_hex(Paint::Own(c)) == c,
        paint_hex(Paint::Default(d)).r == step_of(d.r),
        paint_hex(Paint::Default(d)).g == step_of(d.g),
        paint_hex(Paint::Default(d)).b == step_of(d.b),
{
}

/// A colour is written with a hash and two digits for each component, red first. A text of
/// another length, without the hash, or with something that is no digit gives none, and three
/// digits stand for each of them twice.
pub proof fn law_how_a_color_is_written(c: Hex, text: Seq<char>, r: char, g: char, b: char)
    ensures
        hex_text(c).len() == 7,
        hex_text(c)[0] == '#',
        hex_of(text) is Some ==> trimmed(text).len() == 7 || trimmed(text).len() == 4,
        hex_of(text) is Some ==> trimmed(text)[0] == '#',
        hex_of(text) is Some ==> forall|i: int|
            1 <= i < trimmed(text).len() ==> {
                ||| '0' <= #[trigger] trimmed(text)[i] <= '9'
                ||| 'a' <= trimmed(text)[i] <= 'f'
                ||| 'A' <= trimmed(text)[i] <= 'F'
            },
        !white(b) ==> hex_of(seq!['#', r, g, b]) == hex_of(seq!['#', r, r, g, g, b, b]),
{
    let t = trimmed(text);
    if hex_of(text) is Some {
        assert forall|i: int| 1 <= i < t.len() implies {
            ||| '0' <= #[trigger] t[i] <= '9'
            ||| 'a' <= t[i] <= 'f'
            ||| 'A' <= t[i] <= 'F'
        } by {
            assert(digit_value(t.skip(1)[i - 1]) is Some);
        }
    }
    let short = seq!['#', r, g, b];
    let long = seq!['#', r, r, g, g, b, b];
    if !white(b) {
        lemma_nothing_to_trim(short);
        lemma_nothing_to_trim(long);
        lemma_same_digits(short, long);
    }
}

proof fn lemma_same_digits(short: Seq<char>, long: Seq<char>)
    requires
        short.len() == 4,
        long == seq!['#', short[1], short[1], short[2], short[2], short[3], short[3]],
    ensures
        all_hex(short.skip(1)) == all_hex(long.skip(1)),
{
    let a = short.skip(1);
    let b = long.skip(1);
    if all_hex(a) {
        assert(digit_value(a[0]) is Some && digit_value(a[1]) is Some && digit_value(a[2]) is Some);
        assert forall|i: int| 0 <= i < b.len() implies digit_value(#[trigger] b[i]) is Some by {}
    }
    if all_hex(b) {
        assert(digit_value(b[0]) is Some && digit_value(b[2]) is Some && digit_value(b[4]) is Some);
        assert forall|i: int| 0 <= i < a.len() implies digit_value(#[trigger] a[i]) is Some by {}
    }
}

/// The digits of a colour have their usual values, and two of them stand for a component, the
/// first for sixteen times its value.
pub proof fn law_what_the_digits_of_a_color_say(d: int, text: Seq<char>)
    requires
        text.len() == 7,
        text[0] == '#',
        hex_of(text) is Some,
        trimmed(text) == text,
    ensures
        0 <= d < 10 ==> digit_value((0x30 + d) as char) == Some(d),
        10 <= d < 16 ==> digit_value((0x61 + d - 10) as char) == Some(d),
        10 <= d < 16 ==> digit_value((0x41 + d - 10) as char) == Some(d),
        hex_of(text)->0.r == 16 * digit_value(text[1])->0 + digit_value(text[2])->0,
        hex_of(text)->0.g == 16 * digit_value(text[3])->0 + digit_value(text[4])->0,
        hex_of(text)->0.b == 16 * digit_value(text[5])->0 + digit_value(text[6])->0,
{
    let t = text.skip(1);
    assert(digit_value(t[0]) is Some && digit_value(t[1]) is Some && digit_value(t[2]) is Some);
    assert(digit_value(t[3]) is Some && digit_value(t[4]) is Some && digit_value(t[5]) is Some);
}

} // verus!
