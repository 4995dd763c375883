//! Colours: the theme file's palette, hex parsing and the escape sequences
//! the card is painted with.
use vstd::prelude::*;
use vstd::string::StringSliceAdditionalSpecFns;
use vstd::utf8::encode_utf8;
use vstd::utf8::is_char_boundary;

use crate::text::chars_of;
use crate::text::copy_strings;
use crate::text::opt_view;
use crate::text::decimal;
use crate::text::push_decimal;
use crate::text::span;
use crate::text::str_contains;
use crate::text::str_eq;
use crate::text::substring;
use crate::text::trim;
use crate::text::trim_str;
use crate::text::views;

verus! {

/// `hex.trim().trim_start_matches('#')`: the part of a colour that holds the digits.
pub open spec fn hex_body(hex: Seq<char>) -> Seq<char> {
    let t = trim(hex);
    t.skip(span(t, |c: char| c == '#') as int)
}

/// The value of one ASCII hexadecimal digit (`char::to_digit(16)`).
pub open spec fn hex_digit(b: u8) -> Option<u8> {
    if 48 <= b <= 57 {
        Some((b - 48) as u8)
    } else if 97 <= b <= 102 {
        Some((b - 87) as u8)
    } else if 65 <= b <= 70 {
        Some((b - 55) as u8)
    } else {
        None
    }
}

/// `u8::from_str_radix(s, 16).unwrap_or(255)` for a two-byte `s`: two digits,
/// or `'+'` and one digit; anything else is 255.
pub open spec fn hex_pair(b0: u8, b1: u8) -> u8 {
    if b0 == 43 {
        match hex_digit(b1) {
            Some(v) => v,
            None => 255,
        }
    } else {
        match (hex_digit(b0), hex_digit(b1)) {
            (Some(x), Some(y)) => (16 * x + y) as u8,
            _ => 255,
        }
    }
}

/// The inputs on which `hex_to_rgb` can cut its six bytes into pairs: either
/// the body is not six bytes long, or bytes 2 and 4 begin characters.
pub open spec fn hex_ok(hex: Seq<char>) -> bool {
    let b = encode_utf8(hex_body(hex));
    b.len() == 6 ==> is_char_boundary(b, 2) && is_char_boundary(b, 4)
}

/// The colour a hex string names: white unless its body is six bytes long,
/// otherwise each byte pair read in base 16 (255 where that fails).
pub open spec fn rgb_of(hex: Seq<char>) -> (u8, u8, u8) {
    let b = encode_utf8(hex_body(hex));
    if b.len() != 6 {
        (255, 255, 255)
    } else {
        (hex_pair(b[0], b[1]), hex_pair(b[2], b[3]), hex_pair(b[4], b[5]))
    }
}

fn hex_digit_of(b: u8) -> (r: Option<u8>)
    ensures
        r == hex_digit(b),
{
    if 48 <= b && b <= 57 {
        Some(b - 48)
    } else if 97 <= b && b <= 102 {
        Some(b - 87)
    } else if 65 <= b && b <= 70 {
        Some(b - 55)
    } else {
        None
    }
}

fn hex_pair_of(b0: u8, b1: u8) -> (r: u8)
    ensures
        r == hex_pair(b0, b1),
{
    if b0 == 43 {
        match hex_digit_of(b1) {
            Some(v) => v,
            None => 255,
        }
    } else {
        match (hex_digit_of(b0), hex_digit_of(b1)) {
            (Some(x), Some(y)) => 16 * x + y,
            _ => 255,
        }
    }
}

fn hex_body_of(hex: &str) -> (r: String)
    ensures
        r@ == hex_body(hex@),
{
    let t = trim_str(hex);
    let v = chars_of(t.as_str());
    let mut i: usize = 0;
    while i < v.len() && v[i] == '#'
        invariant
            i <= v.len(),
            forall|j: int| 0 <= j < i ==> #[trigger] v@[j] == '#',
        decreases v.len() - i,
    {
        i += 1;
    }
    proof {
        crate::text::lemma_span_is(v@, |c: char| c == '#', i as int);
        assert(v@.subrange(i as int, v.len() as int) =~= v@.skip(i as int));
    }
    substring(&v, i, v.len())
}

/// Parses a `#rrggbb` colour into its three components; anything whose
/// digits are not six bytes long is white, and a pair that is not hex is 255.
pub fn hex_to_rgb(hex: &str) -> (r: (u8, u8, u8))
    requires
        hex_ok(hex@),
    ensures
        r == rgb_of(hex@),
{
    let body = hex_body_of(hex);
    let bs = body.as_str().as_bytes();
    assert(bs@ == encode_utf8(hex_body(hex@)));
    if bs.len() != 6 {
        return (255, 255, 255);
    }
    let r = hex_pair_of(bs[0], bs[1]);
    let g = hex_pair_of(bs[2], bs[3]);
    let b = hex_pair_of(bs[4], bs[5]);
    (r, g, b)
}

/// The value of a hexadecimal digit character.
pub open spec fn hex_char_value(c: char) -> nat {
    if '0' <= c && c <= '9' {
        ((c as nat) - 48) as nat
    } else if 'a' <= c && c <= 'f' {
        ((c as nat) - 87) as nat
    } else {
        ((c as nat) - 55) as nat
    }
}

/// A hexadecimal digit character (either case).
pub open spec fn is_hex_char(c: char) -> bool {
    ('0' <= c && c <= '9') || ('a' <= c && c <= 'f') || ('A' <= c && c <= 'F')
}

/// The body of a colour written as leading whitespace, any number of `#`,
/// the digits and trailing whitespace is the digits, when they neither begin
/// with `#` nor begin or end with whitespace.
proof fn lemma_hex_body_of_written(ws1: Seq<char>, hashes: Seq<char>, d: Seq<char>, ws2: Seq<char>)
    requires
        forall|i: int| 0 <= i < ws1.len() ==> crate::text::is_ws(#[trigger] ws1[i]),
        forall|i: int| 0 <= i < hashes.len() ==> #[trigger] hashes[i] == '#',
        forall|i: int| 0 <= i < ws2.len() ==> crate::text::is_ws(#[trigger] ws2[i]),
        d.len() > 0,
        d[0] != '#',
        !crate::text::is_ws(d[0]),
        !crate::text::is_ws(d[d.len() - 1]),
    ensures
        hex_body(ws1 + hashes + d + ws2) == d,
{
    let core = hashes + d;
    let s = ws1 + core + ws2;
    assert(s =~= ws1 + hashes + d + ws2);
    assert(!crate::text::is_ws('#'));
    assert(!crate::text::is_ws(core[0]));
    assert forall|i: int| 0 <= i < ws1.len() implies crate::text::is_ws(#[trigger] s[i]) by {
        assert(s[i] == ws1[i]);
    }
    assert(s[ws1.len() as int] == core[0]);
    crate::text::lemma_span_is(s, |c: char| crate::text::is_ws(c), ws1.len() as int);
    let t = s.skip(ws1.len() as int);
    assert(t =~= core + ws2);
    assert forall|i: int| t.len() - ws2.len() <= i < t.len() implies crate::text::is_ws(#[trigger] t[i]) by {
        assert(t[i] == ws2[i - core.len()]);
    }
    assert(t[t.len() - ws2.len() - 1] == d[d.len() - 1]);
    crate::text::lemma_rspan_is(t, |c: char| crate::text::is_ws(c), ws2.len() as int);
    assert(trim(s) =~= core);
    assert forall|i: int| 0 <= i < hashes.len() implies #[trigger] core[i] == '#' by {
        assert(core[i] == hashes[i]);
    }
    assert(core[hashes.len() as int] == d[0]);
    crate::text::lemma_span_is(core, |c: char| c == '#', hashes.len() as int);
    assert(core.skip(hashes.len() as int) =~= d);
}

/// A colour written as six hex digits (in either case), with or without
/// leading `#`s and with any whitespace around it, reads back as its three
/// components: each pair of digits gives its value.
pub proof fn law_hex_colour_reads_back(ws1: Seq<char>, hashes: Seq<char>, d: Seq<char>, ws2: Seq<char>)
    requires
        forall|i: int| 0 <= i < ws1.len() ==> crate::text::is_ws(#[trigger] ws1[i]),
        forall|i: int| 0 <= i < hashes.len() ==> #[trigger] hashes[i] == '#',
        forall|i: int| 0 <= i < ws2.len() ==> crate::text::is_ws(#[trigger] ws2[i]),
        d.len() == 6,
        forall|i: int| 0 <= i < 6 ==> is_hex_char(#[trigger] d[i]),
    ensures
        hex_ok(ws1 + hashes + d + ws2),
        rgb_of(ws1 + hashes + d + ws2) == (
            (16 * hex_char_value(d[0]) + hex_char_value(d[1])) as u8,
            (16 * hex_char_value(d[2]) + hex_char_value(d[3])) as u8,
            (16 * hex_char_value(d[4]) + hex_char_value(d[5])) as u8,
        ),
{
    assert(is_hex_char(d[0]) && is_hex_char(d[5]));
    lemma_hex_body_of_written(ws1, hashes, d, ws2);
    assert(vstd::utf8::is_ascii_chars(d));
    vstd::utf8::is_ascii_chars_encode_utf8(d);
    vstd::utf8::encode_utf8_valid_utf8(d);
    let b = encode_utf8(d);
    assert(b.len() == 6);
    assert forall|i: int| 0 <= i < 6 implies #[trigger] hex_digit(b[i]) == Some(hex_char_value(d[i]) as u8) by {
        assert(b[i] == d[i] as u8);
    }
    assert(b[0] == d[0] as u8);
    assert(b[2] == d[2] as u8);
    assert(b[4] == d[4] as u8);
    vstd::utf8::is_char_boundary_iff_not_is_continuation_byte(b, 2);
    vstd::utf8::is_char_boundary_iff_not_is_continuation_byte(b, 4);
}

/// The hex digit for a value below 16, in lower or upper case.
pub open spec fn hex_digit_char(n: nat, upper: bool) -> char {
    if n < 10 {
        (48 + n) as char
    } else if upper {
        (55 + n) as char
    } else {
        (87 + n) as char
    }
}

/// A byte written as two hex digits (`{:02x}`, or `{:02X}` when `upper`).
pub open spec fn hex2(n: u8, upper: bool) -> Seq<char> {
    seq![hex_digit_char((n / 16) as nat, upper), hex_digit_char((n % 16) as nat, upper)]
}

proof fn lemma_hex_digit_char(n: nat, upper: bool)
    requires
        n < 16,
    ensures
        is_hex_char(hex_digit_char(n, upper)),
        hex_char_value(hex_digit_char(n, upper)) == n,
{
}

/// Writing three bytes as `rrggbb` (lower or upper case digits, with or
/// without leading `#`s and with any whitespace around) and reading the
/// result gives the three bytes back.
pub proof fn law_written_colour_reads_back(
    ws1: Seq<char>,
    hashes: Seq<char>,
    r: u8,
    g: u8,
    b: u8,
    upper: bool,
    ws2: Seq<char>,
)
    requires
        forall|i: int| 0 <= i < ws1.len() ==> crate::text::is_ws(#[trigger] ws1[i]),
        forall|i: int| 0 <= i < hashes.len() ==> #[trigger] hashes[i] == '#',
        forall|i: int| 0 <= i < ws2.len() ==> crate::text::is_ws(#[trigger] ws2[i]),
    ensures
        hex_ok(ws1 + hashes + hex2(r, upper) + hex2(g, upper) + hex2(b, upper) + ws2),
        rgb_of(ws1 + hashes + hex2(r, upper) + hex2(g, upper) + hex2(b, upper) + ws2) == (r, g, b),
{
    let d = hex2(r, upper) + hex2(g, upper) + hex2(b, upper);
    lemma_hex_digit_char((r / 16) as nat, upper);
    lemma_hex_digit_char((r % 16) as nat, upper);
    lemma_hex_digit_char((g / 16) as nat, upper);
    lemma_hex_digit_char((g % 16) as nat, upper);
    lemma_hex_digit_char((b / 16) as nat, upper);
    lemma_hex_digit_char((b % 16) as nat, upper);
    assert(d.len() == 6);
    assert(d[0] == hex_digit_char((r / 16) as nat, upper));
    assert(d[1] == hex_digit_char((r % 16) as nat, upper));
    assert(d[2] == hex_digit_char((g / 16) as nat, upper));
    assert(d[3] == hex_digit_char((g % 16) as nat, upper));
    assert(d[4] == hex_digit_char((b / 16) as nat, upper));
    assert(d[5] == hex_digit_char((b % 16) as nat, upper));
    assert forall|i: int| 0 <= i < 6 implies is_hex_char(#[trigger] d[i]) by {}
    law_hex_colour_reads_back(ws1, hashes, d, ws2);
    assert(ws1 + hashes + hex2(r, upper) + hex2(g, upper) + hex2(b, upper) + ws2 =~= ws1 + hashes + d + ws2);
}

/// Whether `hex_to_rgb` can read `hex` (see `hex_ok`).
pub fn hex_can_be_read(hex: &str) -> (r: bool)
    ensures
        r == hex_ok(hex@),
{
    let body = hex_body_of(hex);
    let st = body.as_str();
    let bs = st.as_bytes();
    assert(bs@ == encode_utf8(hex_body(hex@)));
    if bs.len() != 6 {
        return true;
    }
    st.is_char_boundary(2) && st.is_char_boundary(4)
}

/// The 24-bit foreground escape for a colour.
pub open spec fn ansi_of(hex: Seq<char>) -> Seq<char> {
    let (r, g, b) = rgb_of(hex);
    "\x1b[38;2;"@ + decimal(r as nat) + ";"@ + decimal(g as nat) + ";"@ + decimal(b as nat) + "m"@
}

/// Converts a `#rrggbb` colour to its 24-bit foreground escape sequence.
pub fn hex_to_ansi(hex: &str) -> (r: String)
    requires
        hex_ok(hex@),
    ensures
        r@ == ansi_of(hex@),
{
    let (r, g, b) = hex_to_rgb(hex);
    let mut out = String::from_str("\x1b[38;2;");
    push_decimal(&mut out, r as u64);
    out.append(";");
    push_decimal(&mut out, g as u64);
    out.append(";");
    push_decimal(&mut out, b as u64);
    out.append("m");
    out
}


/// The colours of a theme, as `#rrggbb` strings.
#[derive(Debug, Clone, PartialEq, Eq)]
pub struct ThemeColors {
    pub border: String,
    pub primary: String,
    pub muted: String,
    pub mascot: String,
    pub task_active: String,
    pub gauge_fill: String,
    pub gauge_empty: String,
    pub status_clean: String,
    pub status_dirty: String,
    pub status_error: String,
    // per-item accents: row dots, card titles, clock gradient stops
    pub dot_workspace: String,
    pub dot_git: String,
    pub dot_env: String,
    pub dot_task: String,
    pub dot_mood: String,
    pub title_mew: String,
    pub title_sys: String,
    pub title_context: String,
    pub title_telem: String,
    pub title_cmd: String,
    // the palette strip
    pub dots: Vec<String>,
}

/// The built-in palette, field by field.
pub open spec fn default_colors(c: ThemeColors) -> bool {
    &&& c.border@ == "#45475a"@
    &&& c.primary@ == "#cdd6f4"@
    &&& c.muted@ == "#6c7086"@
    &&& c.mascot@ == "#f2cdcd"@
    &&& c.task_active@ == "#b4befe"@
    &&& c.gauge_fill@ == "#89b4fa"@
    &&& c.gauge_empty@ == "#313244"@
    &&& c.status_clean@ == "#a6e3a1"@
    &&& c.status_dirty@ == "#f9e2af"@
    &&& c.status_error@ == "#f38ba8"@
    &&& c.dot_workspace@ == "#89dceb"@
    &&& c.dot_git@ == "#fab387"@
    &&& c.dot_env@ == "#cba6f7"@
    &&& c.dot_task@ == "#a6e3a1"@
    &&& c.dot_mood@ == "#f5c2e7"@
    &&& c.title_mew@ == "#cba6f7"@
    &&& c.title_sys@ == "#a6e3a1"@
    &&& c.title_context@ == "#fab387"@
    &&& c.title_telem@ == "#f5c2e7"@
    &&& c.title_cmd@ == "#94e2d5"@
    &&& views(c.dots@) == seq!["#f38ba8"@, "#fab387"@, "#f9e2af"@, "#a6e3a1"@, "#94e2d5"@, "#89b4fa"@, "#cba6f7"@, "#f5c2e7"@]
}

impl Default for ThemeColors {
    /// A Catppuccin-inspired palette.
    fn default() -> (r: Self)
        ensures
            default_colors(r),
    {
        let mut dots: Vec<String> = Vec::new();
        dots.push(String::from_str("#f38ba8")); // red
        dots.push(String::from_str("#fab387")); // peach
        dots.push(String::from_str("#f9e2af")); // yellow
        dots.push(String::from_str("#a6e3a1")); // green
        dots.push(String::from_str("#94e2d5")); // teal
        dots.push(String::from_str("#89b4fa")); // blue
        dots.push(String::from_str("#cba6f7")); // mauve
        dots.push(String::from_str("#f5c2e7")); // pink
        let r = ThemeColors {
            border: String::from_str("#45475a"),
            primary: String::from_str("#cdd6f4"),
            muted: String::from_str("#6c7086"),
            mascot: String::from_str("#f2cdcd"),
            task_active: String::from_str("#b4befe"),
            gauge_fill: String::from_str("#89b4fa"),
            gauge_empty: String::from_str("#313244"),
            status_clean: String::from_str("#a6e3a1"),
            status_dirty: String::from_str("#f9e2af"),
            status_error: String::from_str("#f38ba8"),
            dot_workspace: String::from_str("#89dceb"),
            dot_git: String::from_str("#fab387"),
            dot_env: String::from_str("#cba6f7"),
            dot_task: String::from_str("#a6e3a1"),
            dot_mood: String::from_str("#f5c2e7"),
            title_mew: String::from_str("#cba6f7"),
            title_sys: String::from_str("#a6e3a1"),
            title_context: String::from_str("#fab387"),
            title_telem: String::from_str("#f5c2e7"),
            title_cmd: String::from_str("#94e2d5"),
            dots,
        };
        assert(views(r.dots@) =~= seq!["#f38ba8"@, "#fab387"@, "#f9e2af"@, "#a6e3a1"@, "#94e2d5"@, "#89b4fa"@, "#cba6f7"@, "#f5c2e7"@]);
        r
    }
}

proof fn lemma_literal_colour_ok(lit: &str)
    requires
        lit@.len() == 7,
        lit@[0] == '#',
        forall|i: int| 1 <= i < 7 ==> is_hex_char(#[trigger] lit@[i]),
    ensures
        hex_ok(lit@),
{
    let d = lit@.skip(1);
    assert forall|i: int| 0 <= i < 6 implies is_hex_char(#[trigger] d[i]) by {
        assert(d[i] == lit@[i + 1]);
    }
    law_hex_colour_reads_back(seq![], seq!['#'], d, seq![]);
    assert(seq![] + seq!['#'] + d + seq![] =~= lit@);
}

/// Every colour literal of the built-in palette reads as `#rrggbb`.
proof fn lemma_default_literals_ok()
    ensures
        hex_ok("#313244"@),
        hex_ok("#45475a"@),
        hex_ok("#6c7086"@),
        hex_ok("#89b4fa"@),
        hex_ok("#89dceb"@),
        hex_ok("#94e2d5"@),
        hex_ok("#a6e3a1"@),
        hex_ok("#b4befe"@),
        hex_ok("#cba6f7"@),
        hex_ok("#cdd6f4"@),
        hex_ok("#f2cdcd"@),
        hex_ok("#f38ba8"@),
        hex_ok("#f5c2e7"@),
        hex_ok("#f9e2af"@),
        hex_ok("#fab387"@),
{
    assert(hex_ok("#313244"@)) by {
        reveal_strlit("#313244");
        lemma_literal_colour_ok("#313244");
    }
    assert(hex_ok("#45475a"@)) by {
        reveal_strlit("#45475a");
        lemma_literal_colour_ok("#45475a");
    }
    assert(hex_ok("#6c7086"@)) by {
        reveal_strlit("#6c7086");
        lemma_literal_colour_ok("#6c7086");
    }
    assert(hex_ok("#89b4fa"@)) by {
        reveal_strlit("#89b4fa");
        lemma_literal_colour_ok("#89b4fa");
    }
    assert(hex_ok("#89dceb"@)) by {
        reveal_strlit("#89dceb");
        lemma_literal_colour_ok("#89dceb");
    }
    assert(hex_ok("#94e2d5"@)) by {
        reveal_strlit("#94e2d5");
        lemma_literal_colour_ok("#94e2d5");
    }
    assert(hex_ok("#a6e3a1"@)) by {
        reveal_strlit("#a6e3a1");
        lemma_literal_colour_ok("#a6e3a1");
    }
    assert(hex_ok("#b4befe"@)) by {
        reveal_strlit("#b4befe");
        lemma_literal_colour_ok("#b4befe");
    }
    assert(hex_ok("#cba6f7"@)) by {
        reveal_strlit("#cba6f7");
        lemma_literal_colour_ok("#cba6f7");
    }
    assert(hex_ok("#cdd6f4"@)) by {
        reveal_strlit("#cdd6f4");
        lemma_literal_colour_ok("#cdd6f4");
    }
    assert(hex_ok("#f2cdcd"@)) by {
        reveal_strlit("#f2cdcd");
        lemma_literal_colour_ok("#f2cdcd");
    }
    assert(hex_ok("#f38ba8"@)) by {
        reveal_strlit("#f38ba8");
        lemma_literal_colour_ok("#f38ba8");
    }
    assert(hex_ok("#f5c2e7"@)) by {
        reveal_strlit("#f5c2e7");
        lemma_literal_colour_ok("#f5c2e7");
    }
    assert(hex_ok("#f9e2af"@)) by {
        reveal_strlit("#f9e2af");
        lemma_literal_colour_ok("#f9e2af");
    }
    assert(hex_ok("#fab387"@)) by {
        reveal_strlit("#fab387");
        lemma_literal_colour_ok("#fab387");
    }
}

/// The built-in palette can be rendered: every one of its colours reads as
/// `#rrggbb`.
pub proof fn law_default_palette_renders(c: ThemeColors)
    requires
        default_colors(c),
    ensures
        named_colors_ok(c),
        dots_ok(c.dots@),
{
    lemma_default_literals_ok();
    let v = views(c.dots@);
    assert(v[0] == "#f38ba8"@);
    assert(v[1] == "#fab387"@);
    assert(v[2] == "#f9e2af"@);
    assert(v[3] == "#a6e3a1"@);
    assert(v[4] == "#94e2d5"@);
    assert(v[5] == "#89b4fa"@);
    assert(v[6] == "#cba6f7"@);
    assert(v[7] == "#f5c2e7"@);
    assert(v.len() == 8);
    assert forall|i: int| 0 <= i < c.dots@.len() implies hex_ok(#[trigger] c.dots@[i]@) by {
        assert(v[i] == c.dots@[i]@);
        if i == 0 {
        } else if i == 1 {
        } else if i == 2 {
        } else if i == 3 {
        } else if i == 4 {
        } else if i == 5 {
        } else if i == 6 {
        } else {
            assert(i == 7);
        }
    }
}

impl ThemeColors {
    /// Whether every named colour of the theme can be turned into an escape.
    pub fn named_colors_readable(&self) -> (r: bool)
        ensures
            r == named_colors_ok(*self),
    {
        hex_can_be_read(self.border.as_str()) && hex_can_be_read(self.primary.as_str()) && hex_can_be_read(self.muted.as_str()) && hex_can_be_read(self.mascot.as_str()) && hex_can_be_read(self.task_active.as_str()) && hex_can_be_read(self.gauge_fill.as_str()) && hex_can_be_read(self.gauge_empty.as_str()) && hex_can_be_read(self.status_clean.as_str()) && hex_can_be_read(self.status_dirty.as_str()) && hex_can_be_read(self.status_error.as_str()) && hex_can_be_read(self.dot_workspace.as_str()) && hex_can_be_read(self.dot_git.as_str()) && hex_can_be_read(self.dot_env.as_str()) && hex_can_be_read(self.dot_task.as_str()) && hex_can_be_read(self.dot_mood.as_str()) && hex_can_be_read(self.title_mew.as_str()) && hex_can_be_read(self.title_sys.as_str()) && hex_can_be_read(self.title_context.as_str()) && hex_can_be_read(self.title_telem.as_str()) && hex_can_be_read(self.title_cmd.as_str())
    }
}

/// Whether every colour of a palette strip can be turned into an escape.
pub fn dots_readable(dots: &Vec<String>) -> (r: bool)
    ensures
        r == dots_ok(dots@),
{
    let mut i: usize = 0;
    while i < dots.len()
        invariant
            i <= dots.len(),
            forall|j: int| 0 <= j < i ==> hex_ok(#[trigger] dots@[j]@),
        decreases dots.len() - i,
    {
        if !hex_can_be_read(dots[i].as_str()) {
            return false;
        }
        i += 1;
    }
    true
}

/// A theme file: its colours.
#[derive(Debug, Clone)]
pub struct ThemeConfig {
    pub colors: ThemeColors,
}

impl Default for ThemeConfig {
    fn default() -> (r: Self)
        ensures
            default_colors(r.colors),
    {
        ThemeConfig { colors: ThemeColors::default() }
    }
}

/// Whether escapes are written, or plain text.
#[derive(Debug, Clone, Copy, PartialEq, Eq, Structural)]
pub enum ColorMode {
    Truecolor,
    Plain,
}

/// The colour mode for what the terminal reports: plain text when standard
/// output is not a terminal or `NO_COLOR` holds a non-empty value (an empty
/// value keeps colour, as no-color.org asks), 24-bit colour otherwise
/// (`COLORTERM` and `TERM` are read, and every value of them leads there).
pub open spec fn color_mode_of(stdout_is_terminal: bool, no_color: Option<Seq<char>>) -> ColorMode {
    if !stdout_is_terminal || (no_color is Some && no_color->0.len() > 0) {
        ColorMode::Plain
    } else {
        ColorMode::Truecolor
    }
}

/// Chooses the colour mode from whether standard output is a terminal and
/// the values of `NO_COLOR`, `COLORTERM` and `TERM` (each `None` when unset).
pub fn color_mode_from(
    stdout_is_terminal: bool,
    no_color: Option<String>,
    colorterm: Option<String>,
    term: Option<String>,
) -> (r: ColorMode)
    ensures
        r == color_mode_of(stdout_is_terminal, opt_view(no_color)),
{
    if !stdout_is_terminal {
        return ColorMode::Plain;
    }
    if let Some(v) = &no_color {
        if !v.as_str().is_empty() {
            return ColorMode::Plain;
        }
    }
    if let Some(ct) = colorterm {
        if str_eq(ct.as_str(), "truecolor") || str_eq(ct.as_str(), "24bit") {
            return ColorMode::Truecolor;
        }
    }
    if let Some(t) = term {
        if str_contains(t.as_str(), "24bit") || str_contains(t.as_str(), "truecolor")
            || str_contains(t.as_str(), "xterm-256color") {
            return ColorMode::Truecolor;
        }
    }
    ColorMode::Truecolor
}

/// Escape sequences for rendering, one per theme colour.
pub struct Palette {
    pub border: String,
    pub primary: String,
    pub muted: String,
    pub mascot: String,
    pub task_active: String,
    pub gauge_fill: String,
    pub gauge_empty: String,
    pub status_clean: String,
    pub status_dirty: String,
    pub status_error: String,
    pub dot_workspace: String,
    pub dot_git: String,
    pub dot_env: String,
    pub dot_task: String,
    pub dot_mood: String,
    pub title_mew: String,
    pub title_sys: String,
    pub title_context: String,
    pub title_telem: String,
    pub title_cmd: String,
    // raw hex stops for the clock gradient (escapes cannot be mixed)
    pub dot_workspace_hex: String,
    pub title_mew_hex: String,
    // the palette strip, straight from the theme
    pub dots: Vec<String>,
    pub reset: String,
    pub is_plain: bool,
    // the one emphasis tier: bold titles and key numbers; empty in plain mode
    pub bold: String,
}

/// The twenty named colours of a theme can all be turned into escapes.
pub open spec fn named_colors_ok(c: ThemeColors) -> bool {
    &&& hex_ok(c.border@)
    &&& hex_ok(c.primary@)
    &&& hex_ok(c.muted@)
    &&& hex_ok(c.mascot@)
    &&& hex_ok(c.task_active@)
    &&& hex_ok(c.gauge_fill@)
    &&& hex_ok(c.gauge_empty@)
    &&& hex_ok(c.status_clean@)
    &&& hex_ok(c.status_dirty@)
    &&& hex_ok(c.status_error@)
    &&& hex_ok(c.dot_workspace@)
    &&& hex_ok(c.dot_git@)
    &&& hex_ok(c.dot_env@)
    &&& hex_ok(c.dot_task@)
    &&& hex_ok(c.dot_mood@)
    &&& hex_ok(c.title_mew@)
    &&& hex_ok(c.title_sys@)
    &&& hex_ok(c.title_context@)
    &&& hex_ok(c.title_telem@)
    &&& hex_ok(c.title_cmd@)
}

/// Every colour of the palette strip can be turned into an escape.
pub open spec fn dots_ok(dots: Seq<String>) -> bool {
    forall|i: int| 0 <= i < dots.len() ==> hex_ok(#[trigger] dots[i]@)
}

/// The palette built for `mode`: all empty in plain mode, otherwise each
/// named colour's escape, the two gradient stops and the strip as written,
/// reset and bold escapes.
pub open spec fn palette_of(c: ThemeColors, mode: ColorMode, p: Palette) -> bool {
    if mode == ColorMode::Plain {
        &&& p.border@ == Seq::<char>::empty()
        &&& p.primary@ == Seq::<char>::empty()
        &&& p.muted@ == Seq::<char>::empty()
        &&& p.mascot@ == Seq::<char>::empty()
        &&& p.task_active@ == Seq::<char>::empty()
        &&& p.gauge_fill@ == Seq::<char>::empty()
        &&& p.gauge_empty@ == Seq::<char>::empty()
        &&& p.status_clean@ == Seq::<char>::empty()
        &&& p.status_dirty@ == Seq::<char>::empty()
        &&& p.status_error@ == Seq::<char>::empty()
        &&& p.dot_workspace@ == Seq::<char>::empty()
        &&& p.dot_git@ == Seq::<char>::empty()
        &&& p.dot_env@ == Seq::<char>::empty()
        &&& p.dot_task@ == Seq::<char>::empty()
        &&& p.dot_mood@ == Seq::<char>::empty()
        &&& p.title_mew@ == Seq::<char>::empty()
        &&& p.title_sys@ == Seq::<char>::empty()
        &&& p.title_context@ == Seq::<char>::empty()
        &&& p.title_telem@ == Seq::<char>::empty()
        &&& p.title_cmd@ == Seq::<char>::empty()
        &&& p.dot_workspace_hex@ == Seq::<char>::empty()
        &&& p.title_mew_hex@ == Seq::<char>::empty()
        &&& p.dots@.len() == 0
        &&& p.reset@ == Seq::<char>::empty()
        &&& p.is_plain
        &&& p.bold@ == Seq::<char>::empty()
    } else {
        &&& p.border@ == ansi_of(c.border@)
        &&& p.primary@ == ansi_of(c.primary@)
        &&& p.muted@ == ansi_of(c.muted@)
        &&& p.mascot@ == ansi_of(c.mascot@)
        &&& p.task_active@ == ansi_of(c.task_active@)
        &&& p.gauge_fill@ == ansi_of(c.gauge_fill@)
        &&& p.gauge_empty@ == ansi_of(c.gauge_empty@)
        &&& p.status_clean@ == ansi_of(c.status_clean@)
        &&& p.status_dirty@ == ansi_of(c.status_dirty@)
        &&& p.status_error@ == ansi_of(c.status_error@)
        &&& p.dot_workspace@ == ansi_of(c.dot_workspace@)
        &&& p.dot_git@ == ansi_of(c.dot_git@)
        &&& p.dot_env@ == ansi_of(c.dot_env@)
        &&& p.dot_task@ == ansi_of(c.dot_task@)
        &&& p.dot_mood@ == ansi_of(c.dot_mood@)
        &&& p.title_mew@ == ansi_of(c.title_mew@)
        &&& p.title_sys@ == ansi_of(c.title_sys@)
        &&& p.title_context@ == ansi_of(c.title_context@)
        &&& p.title_telem@ == ansi_of(c.title_telem@)
        &&& p.title_cmd@ == ansi_of(c.title_cmd@)
        &&& p.dot_workspace_hex@ == c.dot_workspace@
        &&& p.title_mew_hex@ == c.title_mew@
        &&& views(p.dots@) == views(c.dots@)
        &&& p.reset@ == "\x1b[0m"@
        &&& !p.is_plain
        &&& p.bold@ == "\x1b[1m"@
    }
}

/// The strip of coloured dots: each colour's escape, a dot and the reset
/// escape, separated by single spaces.
pub open spec fn dots_line(dots: Seq<Seq<char>>, reset: Seq<char>) -> Seq<char>
    decreases dots.len(),
{
    if dots.len() == 0 {
        Seq::<char>::empty()
    } else {
        let prev = dots_line(dots.drop_last(), reset);
        (if dots.len() > 1 {
            prev + " "@
        } else {
            prev
        }) + ansi_of(dots.last()) + "\u{25cf}"@ + reset
    }
}

impl Palette {
/// The palette for a theme in a colour mode (see `palette_of`).
    pub fn from_config(config: &ThemeConfig, mode: ColorMode) -> (r: Self)
        requires
            mode == ColorMode::Truecolor ==> named_colors_ok(config.colors),
        ensures
            palette_of(config.colors, mode, r),
    {
        if mode == ColorMode::Plain {
            return Palette {
                border: String::new(),
                primary: String::new(),
                muted: String::new(),
                mascot: String::new(),
                task_active: String::new(),
                gauge_fill: String::new(),
                gauge_empty: String::new(),
                status_clean: String::new(),
                status_dirty: String::new(),
                status_error: String::new(),
                dot_workspace: String::new(),
                dot_git: String::new(),
                dot_env: String::new(),
                dot_task: String::new(),
                dot_mood: String::new(),
                title_mew: String::new(),
                title_sys: String::new(),
                title_context: String::new(),
                title_telem: String::new(),
                title_cmd: String::new(),
                dot_workspace_hex: String::new(),
                title_mew_hex: String::new(),
                dots: Vec::new(),
                reset: String::new(),
                is_plain: true,
                bold: String::new(),
            };
        }
        let c = &config.colors;
        let dots = copy_strings(&c.dots);
        Palette {
            border: hex_to_ansi(c.border.as_str()),
            primary: hex_to_ansi(c.primary.as_str()),
            muted: hex_to_ansi(c.muted.as_str()),
            mascot: hex_to_ansi(c.mascot.as_str()),
            task_active: hex_to_ansi(c.task_active.as_str()),
            gauge_fill: hex_to_ansi(c.gauge_fill.as_str()),
            gauge_empty: hex_to_ansi(c.gauge_empty.as_str()),
            status_clean: hex_to_ansi(c.status_clean.as_str()),
            status_dirty: hex_to_ansi(c.status_dirty.as_str()),
            status_error: hex_to_ansi(c.status_error.as_str()),
            dot_workspace: hex_to_ansi(c.dot_workspace.as_str()),
            dot_git: hex_to_ansi(c.dot_git.as_str()),
            dot_env: hex_to_ansi(c.dot_env.as_str()),
            dot_task: hex_to_ansi(c.dot_task.as_str()),
            dot_mood: hex_to_ansi(c.dot_mood.as_str()),
            title_mew: hex_to_ansi(c.title_mew.as_str()),
            title_sys: hex_to_ansi(c.title_sys.as_str()),
            title_context: hex_to_ansi(c.title_context.as_str()),
            title_telem: hex_to_ansi(c.title_telem.as_str()),
            title_cmd: hex_to_ansi(c.title_cmd.as_str()),
            dot_workspace_hex: c.dot_workspace.clone(),
            title_mew_hex: c.title_mew.clone(),
            dots,
            reset: String::from_str("\x1b[0m"),
            is_plain: false,
            bold: String::from_str("\x1b[1m"),
        }
    }

    /// The palette strip: one coloured dot per strip colour, separated by
    /// spaces; eight uncoloured dots in plain mode.
    pub fn color_palette_dots(&self) -> (r: String)
        requires
            !self.is_plain ==> dots_ok(self.dots@),
        ensures
            r@ == if self.is_plain {
                "\u{25cf} \u{25cf} \u{25cf} \u{25cf} \u{25cf} \u{25cf} \u{25cf} \u{25cf}"@
            } else {
                dots_line(views(self.dots@), self.reset@)
            },
    {
        if self.is_plain {
            return String::from_str("\u{25cf} \u{25cf} \u{25cf} \u{25cf} \u{25cf} \u{25cf} \u{25cf} \u{25cf}");
        }
        let mut out = String::new();
        let mut i: usize = 0;
        while i < self.dots.len()
            invariant
                i <= self.dots.len(),
                dots_ok(self.dots@),
                out@ == dots_line(views(self.dots@.take(i as int)), self.reset@),
            decreases self.dots.len() - i,
        {
            if i > 0 {
                out.append(" ");
            }
            let hex = &self.dots[i];
            assert(hex_ok(self.dots@[i as int]@));
            let esc = hex_to_ansi(hex.as_str());
            out.append(esc.as_str());
            out.append("\u{25cf}");
            out.append(self.reset.as_str());
            proof {
                let d = views(self.dots@.take(i + 1));
                assert(d.drop_last() =~= views(self.dots@.take(i as int)));
                assert(d.last() == hex@);
            }
            i += 1;
        }
        assert(self.dots@.take(i as int) =~= self.dots@);
        out
    }
}

} // verus!
