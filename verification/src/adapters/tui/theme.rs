//! Glyph set and its selection. Detection asks whether a Nerd Font is
//! installed, not whether the terminal is using one.

use vstd::prelude::*;

use crate::domain::text::{
    ascii_lower, ascii_lower_char,
    char_is_whitespace, chars_of, contains_seq, contains_text, lowercase_of_text, push_char,
    text_lowercase, text_width, trim_back, trim_front, width_of_text,
};

verus! {

#[derive(Debug, Clone, Copy, PartialEq, Eq, Structural)]
pub enum IconMode {
    Ascii,
    Nerd,
}

#[derive(Debug, Clone, Copy, PartialEq, Eq)]
pub struct IconSet {
    pub play: &'static str,
    pub search: &'static str,
    pub package: &'static str,
}

/// The play glyph of the ASCII set, also the fallback of a too-wide glyph.
pub const ASCII_PLAY: &'static str = ">";

/// Footer help line.
pub const FOOTER_HELP: &'static str = "[j][k] [h][l] [enter] [/]";

/// Glyphs that every terminal can draw.
pub fn ascii_icons() -> (r: IconSet)
    ensures
        r.play@ == ">"@,
        r.search@ == "/"@,
        r.package@ == "#"@,
{
    IconSet { play: ASCII_PLAY, search: "/", package: "#" }
}

/// Nerd Font codicons. Mono builds are typically one cell; `pad_icon` still
/// clamps them to the gutter so a two-cell glyph cannot shift hit-testing.
pub fn nerd_icons() -> (r: IconSet)
    ensures
        r.play@ == "\u{eb2c}"@,
        r.search@ == "\u{ea6d}"@,
        r.package@ == "\u{eb29}"@,
{
    IconSet { play: "\u{eb2c}", search: "\u{ea6d}", package: "\u{eb29}" }
}

/// The glyph choice; the colours live with the terminal code.
#[derive(Debug, Clone, Copy, PartialEq, Eq)]
pub struct Theme {
    pub mode: IconMode,
    pub icons: IconSet,
}

impl Theme {
    pub fn ascii() -> (r: Self)
        ensures
            r.mode == IconMode::Ascii,
            r.icons.play@ == ">"@,
            r.icons.search@ == "/"@,
            r.icons.package@ == "#"@,
    {
        Theme { mode: IconMode::Ascii, icons: ascii_icons() }
    }

    pub fn nerd() -> (r: Self)
        ensures
            r.mode == IconMode::Nerd,
            r.icons.play@ == "\u{eb2c}"@,
            r.icons.search@ == "\u{ea6d}"@,
            r.icons.package@ == "\u{eb29}"@,
    {
        Theme { mode: IconMode::Nerd, icons: nerd_icons() }
    }

    pub fn resolve(env: Option<&str>, nerd_installed: bool) -> (r: Self)
        ensures
            r.mode == spec_icon_mode(
                match env {
                    Some(v) => Some(v@),
                    None => None,
                },
                nerd_installed,
            ),
            r.mode == IconMode::Ascii ==> r.icons.play@ == ">"@ && r.icons.search@ == "/"@
                && r.icons.package@ == "#"@,
            r.mode == IconMode::Nerd ==> r.icons.play@ == "\u{eb2c}"@ && r.icons.search@
                == "\u{ea6d}"@ && r.icons.package@ == "\u{eb29}"@,
    {
        match resolve_icon_mode(env, nerd_installed) {
            IconMode::Ascii => Theme { mode: IconMode::Ascii, icons: ascii_icons() },
            IconMode::Nerd => Theme { mode: IconMode::Nerd, icons: nerd_icons() },
        }
    }

    /// Columns of the header's search glyph, between one and two.
    pub fn magnifier_cols(self) -> (r: u16)
        ensures
            r as int == clamp_cols(text_width(self.icons.search@) as int),
    {
        let w = width_of_text(self.icons.search);
        if w < 1 {
            1
        } else if w > 2 {
            2
        } else {
            w as u16
        }
    }
}

/// A width clamped to one or two columns.
pub open spec fn clamp_cols(w: int) -> int {
    if w < 1 {
        1
    } else if w > 2 {
        2
    } else {
        w
    }
}

/// The value of the icon variable as it is compared: trimmed, ASCII lowered.
pub open spec fn normalized(s: Seq<char>) -> Seq<char> {
    ascii_lower(trim_back(trim_front(s)))
}

/// `ascii` and `nerd` force a glyph set; any other value, or none, defers to
/// whether a Nerd Font is installed.
pub open spec fn spec_icon_mode(env: Option<Seq<char>>, nerd_installed: bool) -> IconMode {
    match env {
        Some(v) if normalized(v) == "ascii"@ => IconMode::Ascii,
        Some(v) if normalized(v) == "nerd"@ => IconMode::Nerd,
        _ => if nerd_installed {
            IconMode::Nerd
        } else {
            IconMode::Ascii
        },
    }
}

/// `A` to `Z` become `a` to `z`; every other character is unchanged.
fn lower_ascii_char(c: char) -> (r: char)
    ensures
        r == ascii_lower_char(c),
{
    if 'A' <= c && c <= 'Z' {
        let b: u8 = (c as u8) + 32;
        b as char
    } else {
        c
    }
}

fn normalize(value: &str) -> (r: Vec<char>)
    ensures
        r@ == normalized(value@),
{
    let chars = chars_of(value);
    let mut start: usize = 0;
    assert(chars@.skip(0) =~= chars@);
    while start < chars.len() && char_is_whitespace(chars[start])
        invariant
            start <= chars@.len(),
            chars@ == value@,
            trim_front(value@) == trim_front(chars@.skip(start as int)),
        decreases chars.len() - start,
    {
        assert(chars@.skip(start as int).skip(1) =~= chars@.skip(start + 1));
        start += 1;
    }
    let mut end: usize = chars.len();
    let ghost head = chars@.skip(start as int);
    assert(trim_front(head) == head);
    while end > start && char_is_whitespace(chars[end - 1])
        invariant
            start <= end <= chars@.len(),
            head == chars@.skip(start as int),
            trim_back(head) == trim_back(chars@.subrange(start as int, end as int)),
        decreases end,
    {
        assert(chars@.subrange(start as int, end as int).drop_last() =~= chars@.subrange(
            start as int,
            end - 1,
        ));
        end -= 1;
    }
    let ghost body = chars@.subrange(start as int, end as int);
    assert(trim_back(body) == body);
    let mut out: Vec<char> = Vec::new();
    let mut i: usize = start;
    while i < end
        invariant
            start <= i <= end <= chars@.len(),
            out@ == ascii_lower(chars@.subrange(start as int, i as int)),
        decreases end - i,
    {
        out.push(lower_ascii_char(chars[i]));
        i += 1;
        assert(out@ =~= ascii_lower(chars@.subrange(start as int, i as int)));
    }
    assert(chars@.skip(0) =~= chars@);
    out
}

fn is_word(chars: &Vec<char>, word: &str) -> (r: bool)
    ensures
        r == (chars@ == word@),
{
    let w = chars_of(word);
    if w.len() != chars.len() {
        return false;
    }
    let mut i: usize = 0;
    while i < w.len()
        invariant
            w@ == word@,
            w@.len() == chars@.len(),
            i <= w@.len(),
            forall|t: int| 0 <= t < i ==> w@[t] == chars@[t],
        decreases w.len() - i,
    {
        if w[i] != chars[i] {
            return false;
        }
        i += 1;
    }
    assert(w@ =~= chars@);
    true
}

pub fn resolve_icon_mode(env: Option<&str>, nerd_installed: bool) -> (r: IconMode)
    ensures
        r == spec_icon_mode(
            match env {
                Some(v) => Some(v@),
                None => None,
            },
            nerd_installed,
        ),
{
    if let Some(value) = env {
        let n = normalize(value);
        if is_word(&n, "ascii") {
            return IconMode::Ascii;
        }
        if is_word(&n, "nerd") {
            return IconMode::Nerd;
        }
    }
    if nerd_installed {
        IconMode::Nerd
    } else {
        IconMode::Ascii
    }
}

/// `n` spaces.
pub open spec fn spaces(n: nat) -> Seq<char> {
    Seq::new(n, |i: int| ' ')
}

/// A glyph padded to exactly `cols` columns: a glyph wider than the gutter
/// falls back to the ASCII play glyph.
pub open spec fn padded_icon(glyph: Seq<char>, cols: nat) -> Seq<char> {
    let w = text_width(glyph);
    if cols == 0 {
        Seq::empty()
    } else if w > cols {
        ">"@ + spaces((cols - 1) as nat)
    } else if w == cols {
        glyph
    } else {
        glyph + spaces((cols - w) as nat)
    }
}

fn pad_with_spaces(glyph: &str, n: usize) -> (r: String)
    ensures
        r@ == glyph@ + spaces(n as nat),
{
    let mut out = String::from_str(glyph);
    let mut i: usize = 0;
    while i < n
        invariant
            i <= n,
            out@ == glyph@ + spaces(i as nat),
        decreases n - i,
    {
        push_char(&mut out, ' ');
        i += 1;
        assert(out@ =~= glyph@ + spaces(i as nat));
    }
    out
}

pub fn pad_icon(glyph: &str, cols: usize) -> (r: String)
    ensures
        r@ == padded_icon(glyph@, cols as nat),
{
    let width = width_of_text(glyph);
    if cols == 0 {
        return String::new();
    }
    if width > cols {
        proof {
            reveal_strlit(">");
        }
        let play_width = width_of_text(ASCII_PLAY);
        assert(play_width == 1);
        return pad_with_spaces(ASCII_PLAY, cols - 1);
    }
    if width == cols {
        return String::from_str(glyph);
    }
    pad_with_spaces(glyph, cols - width)
}

/// Nerd Fonts register under several spellings.
pub open spec fn mentions_nerd_font(text: Seq<char>) -> bool {
    let t = text_lowercase(text);
    contains_seq(t, "nerd font"@) || contains_seq(t, "nerdfont"@) || contains_seq(t, " nf "@)
        || contains_seq(t, "nf-"@) || contains_seq(t, "nf_"@)
}

pub fn output_mentions_nerd_font(text: &str) -> (r: bool)
    ensures
        r == mentions_nerd_font(text@),
{
    let lower = lowercase_of_text(text);
    let t = lower.as_str();
    contains_text(t, "nerd font") || contains_text(t, "nerdfont") || contains_text(t, " nf ")
        || contains_text(t, "nf-") || contains_text(t, "nf_")
}

} // verus!
