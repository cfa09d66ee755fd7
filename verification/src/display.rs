//! A small markup for terminal text: `**bold**`, `*italic*`, `_underline_`,
//! `<angle>` in cyan, `` `code` `` in green, `[[color]]` ... `[[/]]` tags,
//! `\` escapes, `#` headings and `>` quotes.
use vstd::prelude::*;
use crate::paint::{
    black, blue, bold, bright_black, bright_blue, bright_cyan, bright_green, bright_magenta, bright_red,
    bright_white, bright_yellow, cyan, green, italic, lemma_painted_in, lemma_painted_twice, magenta, painted, painted_in,
    red, white, yellow,
};
use crate::flag::clone_strings;
use crate::cargo_style::spaces;
use crate::text::{
    chars_of, concat, is_space_char, join, joined, owned, push_char, sep_parts, skip_spaces, split_on, str_eq,
    string_of_range, trim, trim_spec, trim_start, trim_start_spec, views, int_text, digits_text, digit_char,
};

verus! {

/// Whether the delimiter `d` (one character, or the first two of it)
/// stands at `j` in `cs`.
pub open spec fn delim_at(cs: Seq<char>, j: int, d: Seq<char>) -> bool {
    if d.len() == 1 {
        cs[j] == d[0]
    } else {
        j + 1 < cs.len() && cs[j] == d[0] && cs[j + 1] == d[1]
    }
}

/// The first position at or after `j` where the delimiter `d` stands, or
/// -1.
pub open spec fn first_delim(cs: Seq<char>, j: int, d: Seq<char>) -> int
    decreases cs.len() - j,
{
    if j < 0 || j >= cs.len() {
        -1
    } else if delim_at(cs, j, d) {
        j
    } else {
        first_delim(cs, j + 1, d)
    }
}

pub proof fn lemma_first_delim(cs: Seq<char>, j: int, d: Seq<char>)
    requires
        0 <= j,
    ensures
        first_delim(cs, j, d) == -1 || (j <= first_delim(cs, j, d) < cs.len() && delim_at(
            cs,
            first_delim(cs, j, d),
            d,
        )),
    decreases cs.len() - j,
{
    if j < cs.len() && !delim_at(cs, j, d) {
        lemma_first_delim(cs, j + 1, d);
    }
}

/// The position of the first `]]` whose first bracket stands at or after
/// `j`, or -1.
pub open spec fn tag_close(cs: Seq<char>, j: int) -> int
    decreases cs.len() - j,
{
    if j < 0 || j + 1 >= cs.len() {
        -1
    } else if cs[j] == ']' && cs[j + 1] == ']' {
        j
    } else {
        tag_close(cs, j + 1)
    }
}

pub proof fn lemma_tag_close(cs: Seq<char>, j: int)
    requires
        0 <= j,
    ensures
        tag_close(cs, j) == -1 || (j <= tag_close(cs, j) && tag_close(cs, j) + 1 < cs.len()),
    decreases cs.len() - j,
{
    if j + 1 < cs.len() && !(cs[j] == ']' && cs[j + 1] == ']') {
        lemma_tag_close(cs, j + 1);
    }
}

/// The first position at or after `start` where `delimiter` (one
/// character, or the first two of it) stands in `chars`.
pub fn find_matching(chars: &[char], start: usize, delimiter: &str) -> (r: Option<usize>)
    requires
        delimiter@.len() >= 1,
    ensures
        match r {
            Some(j) => j == first_delim(chars@, start as int, delimiter@),
            None => first_delim(chars@, start as int, delimiter@) == -1,
        },
{
    let delim_chars = chars_of(delimiter);
    let delim_len = delim_chars.len();
    let mut j = start;
    while j < chars.len()
        invariant
            delim_chars@ == delimiter@,
            delim_len == delimiter@.len(),
            delim_len >= 1,
            start <= j,
            first_delim(chars@, start as int, delimiter@) == first_delim(chars@, j as int, delimiter@),
        decreases chars@.len() - j,
    {
        if delim_len == 1 {
            if chars[j] == delim_chars[0] {
                return Some(j);
            }
        } else if j + 1 < chars.len() && chars[j] == delim_chars[0] && chars[j + 1] == delim_chars[1] {
            return Some(j);
        }
        j = j + 1;
    }
    None
}

/// Where the `]]` closing a color tag opened at `start` stands: the first
/// one at or after `start + 2`.
pub fn find_tag_end(chars: &[char], start: usize) -> (r: Option<usize>)
    requires
        start + 2 <= usize::MAX,
    ensures
        match r {
            Some(j) => j == tag_close(chars@, start + 2),
            None => tag_close(chars@, start + 2) == -1,
        },
{
    let mut j = start + 2;
    while j < chars.len() && j + 1 < chars.len()
        invariant
            start + 2 <= j,
            tag_close(chars@, start + 2) == tag_close(chars@, j as int),
        decreases chars@.len() - j,
    {
        if chars[j] == ']' && chars[j + 1] == ']' {
            return Some(j);
        }
        j = j + 1;
    }
    None
}

/// The colors a tag can name.
#[derive(Debug, Clone, Copy, PartialEq, Eq, Structural)]
pub enum TermColor {
    Black,
    Red,
    Green,
    Yellow,
    Blue,
    Magenta,
    Cyan,
    White,
    BrightBlack,
    BrightRed,
    BrightGreen,
    BrightYellow,
    BrightBlue,
    BrightMagenta,
    BrightCyan,
    BrightWhite,
}

/// The color a tag name stands for; `None` for a name that is not known,
/// which leaves the text as it is.
pub open spec fn color_named(n: Seq<char>) -> Option<TermColor> {
    if n == "black"@ {
        Some(TermColor::Black)
    } else if n == "red"@ {
        Some(TermColor::Red)
    } else if n == "green"@ {
        Some(TermColor::Green)
    } else if n == "yellow"@ {
        Some(TermColor::Yellow)
    } else if n == "blue"@ {
        Some(TermColor::Blue)
    } else if n == "magenta"@ {
        Some(TermColor::Magenta)
    } else if n == "cyan"@ {
        Some(TermColor::Cyan)
    } else if n == "white"@ || n == "bright_gray"@ || n == "bright_grey"@ || n
        == "b_gray"@ || n == "b_grey"@ {
        Some(TermColor::White)
    } else if n == "bright_black"@ || n == "b_black"@ || n == "gray"@ || n == "grey"@ {
        Some(TermColor::BrightBlack)
    } else if n == "bright_red"@ || n == "b_red"@ {
        Some(TermColor::BrightRed)
    } else if n == "bright_green"@ || n == "b_green"@ {
        Some(TermColor::BrightGreen)
    } else if n == "bright_yellow"@ || n == "b_yellow"@ {
        Some(TermColor::BrightYellow)
    } else if n == "bright_blue"@ || n == "b_blue"@ {
        Some(TermColor::BrightBlue)
    } else if n == "bright_magenta"@ || n == "b_magenta"@ {
        Some(TermColor::BrightMagenta)
    } else if n == "bright_cyan"@ || n == "b_cyan"@ {
        Some(TermColor::BrightCyan)
    } else if n == "bright_white"@ || n == "b_white"@ {
        Some(TermColor::BrightWhite)
    } else {
        None
    }
}

/// The names the color tags are documented under for each color: the
/// color's own name (`red`, `bright_red`, ...), and for a bright color its
/// `b_` shorthand (`b_red`, ...).
pub open spec fn documented_names(c: TermColor) -> Seq<Seq<char>> {
    match c {
        TermColor::Black => seq!["black"@],
        TermColor::Red => seq!["red"@],
        TermColor::Green => seq!["green"@],
        TermColor::Yellow => seq!["yellow"@],
        TermColor::Blue => seq!["blue"@],
        TermColor::Magenta => seq!["magenta"@],
        TermColor::Cyan => seq!["cyan"@],
        TermColor::White => seq!["white"@],
        TermColor::BrightBlack => seq!["bright_black"@, "b_black"@],
        TermColor::BrightRed => seq!["bright_red"@, "b_red"@],
        TermColor::BrightGreen => seq!["bright_green"@, "b_green"@],
        TermColor::BrightYellow => seq!["bright_yellow"@, "b_yellow"@],
        TermColor::BrightBlue => seq!["bright_blue"@, "b_blue"@],
        TermColor::BrightMagenta => seq!["bright_magenta"@, "b_magenta"@],
        TermColor::BrightCyan => seq!["bright_cyan"@, "b_cyan"@],
        TermColor::BrightWhite => seq!["bright_white"@, "b_white"@],
    }
}

/// The terminal code of each color, as the ANSI standard numbers them:
/// 30 to 37 for black, red, green, yellow, blue, magenta, cyan and white,
/// 90 to 97 for their bright forms.
pub open spec fn ansi_code(c: TermColor) -> int {
    match c {
        TermColor::Black => 30,
        TermColor::Red => 31,
        TermColor::Green => 32,
        TermColor::Yellow => 33,
        TermColor::Blue => 34,
        TermColor::Magenta => 35,
        TermColor::Cyan => 36,
        TermColor::White => 37,
        TermColor::BrightBlack => 90,
        TermColor::BrightRed => 91,
        TermColor::BrightGreen => 92,
        TermColor::BrightYellow => 93,
        TermColor::BrightBlue => 94,
        TermColor::BrightMagenta => 95,
        TermColor::BrightCyan => 96,
        TermColor::BrightWhite => 97,
    }
}

proof fn lemma_int_text_two_digits(n: int)
    requires
        10 <= n < 100,
    ensures
        int_text(n) == seq![digit_char(n / 10), digit_char(n % 10)],
{
    assert(digits_text((n / 10) as nat) == seq![digit_char(n / 10)]);
    assert(digits_text(n as nat) =~= seq![digit_char(n / 10), digit_char(n % 10)]);
}

/// Every documented color tag names the color of that name, and paints
/// with that color's terminal code: a `[[yellow]]` tag is yellow, code 33.
pub proof fn law_color_tags_name_their_color(c: TermColor, k: int)
    requires
        0 <= k < documented_names(c).len(),
    ensures
        color_named(documented_names(c)[k]) == Some(c),
        color_code(c) == int_text(ansi_code(c)),
{
    reveal_strlit("black");
    reveal_strlit("red");
    reveal_strlit("green");
    reveal_strlit("yellow");
    reveal_strlit("blue");
    reveal_strlit("magenta");
    reveal_strlit("cyan");
    reveal_strlit("white");
    reveal_strlit("bright_gray");
    reveal_strlit("bright_grey");
    reveal_strlit("b_gray");
    reveal_strlit("b_grey");
    reveal_strlit("bright_black");
    reveal_strlit("b_black");
    reveal_strlit("gray");
    reveal_strlit("grey");
    reveal_strlit("bright_red");
    reveal_strlit("b_red");
    reveal_strlit("bright_green");
    reveal_strlit("b_green");
    reveal_strlit("bright_yellow");
    reveal_strlit("b_yellow");
    reveal_strlit("bright_blue");
    reveal_strlit("b_blue");
    reveal_strlit("bright_magenta");
    reveal_strlit("b_magenta");
    reveal_strlit("bright_cyan");
    reveal_strlit("b_cyan");
    reveal_strlit("bright_white");
    reveal_strlit("b_white");
    reveal_strlit("30");
    reveal_strlit("31");
    reveal_strlit("32");
    reveal_strlit("33");
    reveal_strlit("34");
    reveal_strlit("35");
    reveal_strlit("36");
    reveal_strlit("37");
    reveal_strlit("90");
    reveal_strlit("91");
    reveal_strlit("92");
    reveal_strlit("93");
    reveal_strlit("94");
    reveal_strlit("95");
    reveal_strlit("96");
    reveal_strlit("97");
    match c {
        TermColor::Black => {
            assert("black"@.len() == 5);
            assert(color_named("black"@) == Some(TermColor::Black));
        },
        TermColor::Red => {
            assert("black"@.len() == 5);
            assert("red"@.len() == 3);
            assert(color_named("red"@) == Some(TermColor::Red));
        },
        TermColor::Green => {
            assert("green"@[0] != "black"@[0]);
            assert("red"@.len() == 3);
            assert("green"@.len() == 5);
            assert(color_named("green"@) == Some(TermColor::Green));
        },
        TermColor::Yellow => {
            assert("black"@.len() == 5);
            assert("red"@.len() == 3);
            assert("green"@.len() == 5);
            assert("yellow"@.len() == 6);
            assert(color_named("yellow"@) == Some(TermColor::Yellow));
        },
        TermColor::Blue => {
            assert("black"@.len() == 5);
            assert("red"@.len() == 3);
            assert("green"@.len() == 5);
            assert("yellow"@.len() == 6);
            assert("blue"@.len() == 4);
            assert(color_named("blue"@) == Some(TermColor::Blue));
        },
        TermColor::Magenta => {
            assert("black"@.len() == 5);
            assert("red"@.len() == 3);
            assert("green"@.len() == 5);
            assert("yellow"@.len() == 6);
            assert("blue"@.len() == 4);
            assert("magenta"@.len() == 7);
            assert(color_named("magenta"@) == Some(TermColor::Magenta));
        },
        TermColor::Cyan => {
            assert("black"@.len() == 5);
            assert("red"@.len() == 3);
            assert("green"@.len() == 5);
            assert("yellow"@.len() == 6);
            assert("cyan"@[0] != "blue"@[0]);
            assert("magenta"@.len() == 7);
            assert("cyan"@.len() == 4);
            assert(color_named("cyan"@) == Some(TermColor::Cyan));
        },
        TermColor::White => {
            assert("white"@[0] != "black"@[0]);
            assert("red"@.len() == 3);
            assert("white"@[0] != "green"@[0]);
            assert("yellow"@.len() == 6);
            assert("blue"@.len() == 4);
            assert("magenta"@.len() == 7);
            assert("cyan"@.len() == 4);
            assert("white"@.len() == 5);
            assert(color_named("white"@) == Some(TermColor::White));
        },
        TermColor::BrightBlack => {
            assert("black"@.len() == 5);
            assert("red"@.len() == 3);
            assert("green"@.len() == 5);
            assert("yellow"@.len() == 6);
            assert("blue"@.len() == 4);
            assert("magenta"@.len() == 7);
            assert("cyan"@.len() == 4);
            assert("white"@.len() == 5);
            assert("bright_gray"@.len() == 11);
            assert("bright_grey"@.len() == 11);
            assert("b_gray"@.len() == 6);
            assert("b_grey"@.len() == 6);
            assert("bright_black"@.len() == 12);
            assert(color_named("bright_black"@) == Some(TermColor::BrightBlack));
            assert("black"@.len() == 5);
            assert("red"@.len() == 3);
            assert("green"@.len() == 5);
            assert("yellow"@.len() == 6);
            assert("blue"@.len() == 4);
            assert("b_black"@[0] != "magenta"@[0]);
            assert("cyan"@.len() == 4);
            assert("white"@.len() == 5);
            assert("bright_gray"@.len() == 11);
            assert("bright_grey"@.len() == 11);
            assert("b_gray"@.len() == 6);
            assert("b_grey"@.len() == 6);
            assert("b_black"@.len() == 7);
            assert(color_named("b_black"@) == Some(TermColor::BrightBlack));
        },
        TermColor::BrightRed => {
            assert("black"@.len() == 5);
            assert("red"@.len() == 3);
            assert("green"@.len() == 5);
            assert("yellow"@.len() == 6);
            assert("blue"@.len() == 4);
            assert("magenta"@.len() == 7);
            assert("cyan"@.len() == 4);
            assert("white"@.len() == 5);
            assert("bright_gray"@.len() == 11);
            assert("bright_grey"@.len() == 11);
            assert("b_gray"@.len() == 6);
            assert("b_grey"@.len() == 6);
            assert("bright_black"@.len() == 12);
            assert("b_black"@.len() == 7);
            assert("gray"@.len() == 4);
            assert("grey"@.len() == 4);
            assert("bright_red"@.len() == 10);
            assert(color_named("bright_red"@) == Some(TermColor::BrightRed));
            assert("b_red"@[1] != "black"@[1]);
            assert("red"@.len() == 3);
            assert("b_red"@[0] != "green"@[0]);
            assert("yellow"@.len() == 6);
            assert("blue"@.len() == 4);
            assert("magenta"@.len() == 7);
            assert("cyan"@.len() == 4);
            assert("b_red"@[0] != "white"@[0]);
            assert("bright_gray"@.len() == 11);
            assert("bright_grey"@.len() == 11);
            assert("b_gray"@.len() == 6);
            assert("b_grey"@.len() == 6);
            assert("bright_black"@.len() == 12);
            assert("b_black"@.len() == 7);
            assert("gray"@.len() == 4);
            assert("grey"@.len() == 4);
            assert("b_red"@.len() == 5);
            assert(color_named("b_red"@) == Some(TermColor::BrightRed));
        },
        TermColor::BrightGreen => {
            assert("black"@.len() == 5);
            assert("red"@.len() == 3);
            assert("green"@.len() == 5);
            assert("yellow"@.len() == 6);
            assert("blue"@.len() == 4);
            assert("magenta"@.len() == 7);
            assert("cyan"@.len() == 4);
            assert("white"@.len() == 5);
            assert("bright_gray"@.len() == 11);
            assert("bright_grey"@.len() == 11);
            assert("b_gray"@.len() == 6);
            assert("b_grey"@.len() == 6);
            assert("bright_green"@[7] != "bright_black"@[7]);
            assert("b_black"@.len() == 7);
            assert("gray"@.len() == 4);
            assert("grey"@.len() == 4);
            assert("bright_red"@.len() == 10);
            assert("b_red"@.len() == 5);
            assert("bright_green"@.len() == 12);
            assert(color_named("bright_green"@) == Some(TermColor::BrightGreen));
            assert("black"@.len() == 5);
            assert("red"@.len() == 3);
            assert("green"@.len() == 5);
            assert("yellow"@.len() == 6);
            assert("blue"@.len() == 4);
            assert("b_green"@[0] != "magenta"@[0]);
            assert("cyan"@.len() == 4);
            assert("white"@.len() == 5);
            assert("bright_gray"@.len() == 11);
            assert("bright_grey"@.len() == 11);
            assert("b_gray"@.len() == 6);
            assert("b_grey"@.len() == 6);
            assert("bright_black"@.len() == 12);
            assert("b_green"@[2] != "b_black"@[2]);
            assert("gray"@.len() == 4);
            assert("grey"@.len() == 4);
            assert("bright_red"@.len() == 10);
            assert("b_red"@.len() == 5);
            assert("b_green"@.len() == 7);
            assert(color_named("b_green"@) == Some(TermColor::BrightGreen));
        },
        TermColor::BrightYellow => {
            assert("black"@.len() == 5);
            assert("red"@.len() == 3);
            assert("green"@.len() == 5);
            assert("yellow"@.len() == 6);
            assert("blue"@.len() == 4);
            assert("magenta"@.len() == 7);
            assert("cyan"@.len() == 4);
            assert("white"@.len() == 5);
            assert("bright_gray"@.len() == 11);
            assert("bright_grey"@.len() == 11);
            assert("b_gray"@.len() == 6);
            assert("b_grey"@.len() == 6);
            assert("bright_black"@.len() == 12);
            assert("b_black"@.len() == 7);
            assert("gray"@.len() == 4);
            assert("grey"@.len() == 4);
            assert("bright_red"@.len() == 10);
            assert("b_red"@.len() == 5);
            assert("bright_green"@.len() == 12);
            assert("b_green"@.len() == 7);
            assert("bright_yellow"@.len() == 13);
            assert(color_named("bright_yellow"@) == Some(TermColor::BrightYellow));
            assert("black"@.len() == 5);
            assert("red"@.len() == 3);
            assert("green"@.len() == 5);
            assert("yellow"@.len() == 6);
            assert("blue"@.len() == 4);
            assert("magenta"@.len() == 7);
            assert("cyan"@.len() == 4);
            assert("white"@.len() == 5);
            assert("bright_gray"@.len() == 11);
            assert("bright_grey"@.len() == 11);
            assert("b_gray"@.len() == 6);
            assert("b_grey"@.len() == 6);
            assert("bright_black"@.len() == 12);
            assert("b_black"@.len() == 7);
            assert("gray"@.len() == 4);
            assert("grey"@.len() == 4);
            assert("bright_red"@.len() == 10);
            assert("b_red"@.len() == 5);
            assert("bright_green"@.len() == 12);
            assert("b_green"@.len() == 7);
            assert("b_yellow"@.len() == 8);
            assert(color_named("b_yellow"@) == Some(TermColor::BrightYellow));
        },
        TermColor::BrightBlue => {
            assert("black"@.len() == 5);
            assert("red"@.len() == 3);
            assert("green"@.len() == 5);
            assert("yellow"@.len() == 6);
            assert("blue"@.len() == 4);
            assert("magenta"@.len() == 7);
            assert("cyan"@.len() == 4);
            assert("white"@.len() == 5);
            assert("bright_blue"@[7] != "bright_gray"@[7]);
            assert("bright_blue"@[7] != "bright_grey"@[7]);
            assert("b_gray"@.len() == 6);
            assert("b_grey"@.len() == 6);
            assert("bright_black"@.len() == 12);
            assert("b_black"@.len() == 7);
            assert("gray"@.len() == 4);
            assert("grey"@.len() == 4);
            assert("bright_red"@.len() == 10);
            assert("b_red"@.len() == 5);
            assert("bright_green"@.len() == 12);
            assert("b_green"@.len() == 7);
            assert("bright_yellow"@.len() == 13);
            assert("b_yellow"@.len() == 8);
            assert("bright_blue"@.len() == 11);
            assert(color_named("bright_blue"@) == Some(TermColor::BrightBlue));
            assert("black"@.len() == 5);
            assert("red"@.len() == 3);
            assert("green"@.len() == 5);
            assert("b_blue"@[0] != "yellow"@[0]);
            assert("blue"@.len() == 4);
            assert("magenta"@.len() == 7);
            assert("cyan"@.len() == 4);
            assert("white"@.len() == 5);
            assert("bright_gray"@.len() == 11);
            assert("bright_grey"@.len() == 11);
            assert("b_blue"@[2] != "b_gray"@[2]);
            assert("b_blue"@[2] != "b_grey"@[2]);
            assert("bright_black"@.len() == 12);
            assert("b_black"@.len() == 7);
            assert("gray"@.len() == 4);
            assert("grey"@.len() == 4);
            assert("bright_red"@.len() == 10);
            assert("b_red"@.len() == 5);
            assert("bright_green"@.len() == 12);
            assert("b_green"@.len() == 7);
            assert("bright_yellow"@.len() == 13);
            assert("b_yellow"@.len() == 8);
            assert("b_blue"@.len() == 6);
            assert(color_named("b_blue"@) == Some(TermColor::BrightBlue));
        },
        TermColor::BrightMagenta => {
            assert("black"@.len() == 5);
            assert("red"@.len() == 3);
            assert("green"@.len() == 5);
            assert("yellow"@.len() == 6);
            assert("blue"@.len() == 4);
            assert("magenta"@.len() == 7);
            assert("cyan"@.len() == 4);
            assert("white"@.len() == 5);
            assert("bright_gray"@.len() == 11);
            assert("bright_grey"@.len() == 11);
            assert("b_gray"@.len() == 6);
            assert("b_grey"@.len() == 6);
            assert("bright_black"@.len() == 12);
            assert("b_black"@.len() == 7);
            assert("gray"@.len() == 4);
            assert("grey"@.len() == 4);
            assert("bright_red"@.len() == 10);
            assert("b_red"@.len() == 5);
            assert("bright_green"@.len() == 12);
            assert("b_green"@.len() == 7);
            assert("bright_yellow"@.len() == 13);
            assert("b_yellow"@.len() == 8);
            assert("bright_blue"@.len() == 11);
            assert("b_blue"@.len() == 6);
            assert("bright_magenta"@.len() == 14);
            assert(color_named("bright_magenta"@) == Some(TermColor::BrightMagenta));
            assert("black"@.len() == 5);
            assert("red"@.len() == 3);
            assert("green"@.len() == 5);
            assert("yellow"@.len() == 6);
            assert("blue"@.len() == 4);
            assert("magenta"@.len() == 7);
            assert("cyan"@.len() == 4);
            assert("white"@.len() == 5);
            assert("bright_gray"@.len() == 11);
            assert("bright_grey"@.len() == 11);
            assert("b_gray"@.len() == 6);
            assert("b_grey"@.len() == 6);
            assert("bright_black"@.len() == 12);
            assert("b_black"@.len() == 7);
            assert("gray"@.len() == 4);
            assert("grey"@.len() == 4);
            assert("bright_red"@.len() == 10);
            assert("b_red"@.len() == 5);
            assert("bright_green"@.len() == 12);
            assert("b_green"@.len() == 7);
            assert("bright_yellow"@.len() == 13);
            assert("b_yellow"@.len() == 8);
            assert("bright_blue"@.len() == 11);
            assert("b_blue"@.len() == 6);
            assert("b_magenta"@.len() == 9);
            assert(color_named("b_magenta"@) == Some(TermColor::BrightMagenta));
        },
        TermColor::BrightCyan => {
            assert("black"@.len() == 5);
            assert("red"@.len() == 3);
            assert("green"@.len() == 5);
            assert("yellow"@.len() == 6);
            assert("blue"@.len() == 4);
            assert("magenta"@.len() == 7);
            assert("cyan"@.len() == 4);
            assert("white"@.len() == 5);
            assert("bright_cyan"@[7] != "bright_gray"@[7]);
            assert("bright_cyan"@[7] != "bright_grey"@[7]);
            assert("b_gray"@.len() == 6);
            assert("b_grey"@.len() == 6);
            assert("bright_black"@.len() == 12);
            assert("b_black"@.len() == 7);
            assert("gray"@.len() == 4);
            assert("grey"@.len() == 4);
            assert("bright_red"@.len() == 10);
            assert("b_red"@.len() == 5);
            assert("bright_green"@.len() == 12);
            assert("b_green"@.len() == 7);
            assert("bright_yellow"@.len() == 13);
            assert("b_yellow"@.len() == 8);
            assert("bright_cyan"@[7] != "bright_blue"@[7]);
            assert("b_blue"@.len() == 6);
            assert("bright_magenta"@.len() == 14);
            assert("b_magenta"@.len() == 9);
            assert("bright_cyan"@.len() == 11);
            assert(color_named("bright_cyan"@) == Some(TermColor::BrightCyan));
            assert("black"@.len() == 5);
            assert("red"@.len() == 3);
            assert("green"@.len() == 5);
            assert("b_cyan"@[0] != "yellow"@[0]);
            assert("blue"@.len() == 4);
            assert("magenta"@.len() == 7);
            assert("cyan"@.len() == 4);
            assert("white"@.len() == 5);
            assert("bright_gray"@.len() == 11);
            assert("bright_grey"@.len() == 11);
            assert("b_cyan"@[2] != "b_gray"@[2]);
            assert("b_cyan"@[2] != "b_grey"@[2]);
            assert("bright_black"@.len() == 12);
            assert("b_black"@.len() == 7);
            assert("gray"@.len() == 4);
            assert("grey"@.len() == 4);
            assert("bright_red"@.len() == 10);
            assert("b_red"@.len() == 5);
            assert("bright_green"@.len() == 12);
            assert("b_green"@.len() == 7);
            assert("bright_yellow"@.len() == 13);
            assert("b_yellow"@.len() == 8);
            assert("bright_blue"@.len() == 11);
            assert("b_cyan"@[2] != "b_blue"@[2]);
            assert("bright_magenta"@.len() == 14);
            assert("b_magenta"@.len() == 9);
            assert("b_cyan"@.len() == 6);
            assert(color_named("b_cyan"@) == Some(TermColor::BrightCyan));
        },
        TermColor::BrightWhite => {
            assert("black"@.len() == 5);
            assert("red"@.len() == 3);
            assert("green"@.len() == 5);
            assert("yellow"@.len() == 6);
            assert("blue"@.len() == 4);
            assert("magenta"@.len() == 7);
            assert("cyan"@.len() == 4);
            assert("white"@.len() == 5);
            assert("bright_gray"@.len() == 11);
            assert("bright_grey"@.len() == 11);
            assert("b_gray"@.len() == 6);
            assert("b_grey"@.len() == 6);
            assert("bright_white"@[7] != "bright_black"@[7]);
            assert("b_black"@.len() == 7);
            assert("gray"@.len() == 4);
            assert("grey"@.len() == 4);
            assert("bright_red"@.len() == 10);
            assert("b_red"@.len() == 5);
            assert("bright_white"@[7] != "bright_green"@[7]);
            assert("b_green"@.len() == 7);
            assert("bright_yellow"@.len() == 13);
            assert("b_yellow"@.len() == 8);
            assert("bright_blue"@.len() == 11);
            assert("b_blue"@.len() == 6);
            assert("bright_magenta"@.len() == 14);
            assert("b_magenta"@.len() == 9);
            assert("bright_cyan"@.len() == 11);
            assert("b_cyan"@.len() == 6);
            assert("bright_white"@.len() == 12);
            assert(color_named("bright_white"@) == Some(TermColor::BrightWhite));
            assert("black"@.len() == 5);
            assert("red"@.len() == 3);
            assert("green"@.len() == 5);
            assert("yellow"@.len() == 6);
            assert("blue"@.len() == 4);
            assert("b_white"@[0] != "magenta"@[0]);
            assert("cyan"@.len() == 4);
            assert("white"@.len() == 5);
            assert("bright_gray"@.len() == 11);
            assert("bright_grey"@.len() == 11);
            assert("b_gray"@.len() == 6);
            assert("b_grey"@.len() == 6);
            assert("bright_black"@.len() == 12);
            assert("b_white"@[2] != "b_black"@[2]);
            assert("gray"@.len() == 4);
            assert("grey"@.len() == 4);
            assert("bright_red"@.len() == 10);
            assert("b_red"@.len() == 5);
            assert("bright_green"@.len() == 12);
            assert("b_white"@[2] != "b_green"@[2]);
            assert("bright_yellow"@.len() == 13);
            assert("b_yellow"@.len() == 8);
            assert("bright_blue"@.len() == 11);
            assert("b_blue"@.len() == 6);
            assert("bright_magenta"@.len() == 14);
            assert("b_magenta"@.len() == 9);
            assert("bright_cyan"@.len() == 11);
            assert("b_cyan"@.len() == 6);
            assert("b_white"@.len() == 7);
            assert(color_named("b_white"@) == Some(TermColor::BrightWhite));
        },
    }
    lemma_int_text_two_digits(ansi_code(c));
}

/// The color a tag name stands for, if it is one.
pub fn color_of(name: &str) -> (r: Option<TermColor>)
    ensures
        r == color_named(name@),
{
    if str_eq(name, "black") {
        Some(TermColor::Black)
    } else if str_eq(name, "red") {
        Some(TermColor::Red)
    } else if str_eq(name, "green") {
        Some(TermColor::Green)
    } else if str_eq(name, "yellow") {
        Some(TermColor::Yellow)
    } else if str_eq(name, "blue") {
        Some(TermColor::Blue)
    } else if str_eq(name, "magenta") {
        Some(TermColor::Magenta)
    } else if str_eq(name, "cyan") {
        Some(TermColor::Cyan)
    } else if str_eq(name, "white") || str_eq(name, "bright_gray") || str_eq(
        name,
        "bright_grey",
    ) || str_eq(name, "b_gray") || str_eq(name, "b_grey") {
        Some(TermColor::White)
    } else if str_eq(name, "bright_black") || str_eq(name, "b_black") || str_eq(name, "gray") || str_eq(
        name,
        "grey",
    ) {
        Some(TermColor::BrightBlack)
    } else if str_eq(name, "bright_red") || str_eq(name, "b_red") {
        Some(TermColor::BrightRed)
    } else if str_eq(name, "bright_green") || str_eq(name, "b_green") {
        Some(TermColor::BrightGreen)
    } else if str_eq(name, "bright_yellow") || str_eq(name, "b_yellow") {
        Some(TermColor::BrightYellow)
    } else if str_eq(name, "bright_blue") || str_eq(name, "b_blue") {
        Some(TermColor::BrightBlue)
    } else if str_eq(name, "bright_magenta") || str_eq(name, "b_magenta") {
        Some(TermColor::BrightMagenta)
    } else if str_eq(name, "bright_cyan") || str_eq(name, "b_cyan") {
        Some(TermColor::BrightCyan)
    } else if str_eq(name, "bright_white") || str_eq(name, "b_white") {
        Some(TermColor::BrightWhite)
    } else {
        None
    }
}

/// The `colored` code of the foreground color `c`.
pub open spec fn color_code(c: TermColor) -> Seq<char> {
    match c {
        TermColor::Black => "30"@,
        TermColor::Red => "31"@,
        TermColor::Green => "32"@,
        TermColor::Yellow => "33"@,
        TermColor::Blue => "34"@,
        TermColor::Magenta => "35"@,
        TermColor::Cyan => "36"@,
        TermColor::White => "37"@,
        TermColor::BrightBlack => "90"@,
        TermColor::BrightRed => "91"@,
        TermColor::BrightGreen => "92"@,
        TermColor::BrightYellow => "93"@,
        TermColor::BrightBlue => "94"@,
        TermColor::BrightMagenta => "95"@,
        TermColor::BrightCyan => "96"@,
        TermColor::BrightWhite => "97"@,
    }
}

/// Whether `r` is `t` after the color tag `name`: painted in that color,
/// or unchanged when the name is not a known color.
pub open spec fn color_step(t: Seq<char>, name: Seq<char>, r: Seq<char>) -> bool {
    match color_named(name) {
        None => r == t,
        Some(c) => painted_in(t, r, color_code(c)),
    }
}

/// `text` in the color of the tag `color_name`; a name that is not a
/// known color leaves the text as it is.
pub fn apply_color(text: &str, color_name: &str) -> (r: String)
    ensures
        color_step(text@, color_name@, r@),
        painted(text@, r@),
{
    let r = match color_of(color_name) {
        None => owned(text),
        Some(TermColor::Black) => black(text),
        Some(TermColor::Red) => red(text),
        Some(TermColor::Green) => green(text),
        Some(TermColor::Yellow) => yellow(text),
        Some(TermColor::Blue) => blue(text),
        Some(TermColor::Magenta) => magenta(text),
        Some(TermColor::Cyan) => cyan(text),
        Some(TermColor::White) => white(text),
        Some(TermColor::BrightBlack) => bright_black(text),
        Some(TermColor::BrightRed) => bright_red(text),
        Some(TermColor::BrightGreen) => bright_green(text),
        Some(TermColor::BrightYellow) => bright_yellow(text),
        Some(TermColor::BrightBlue) => bright_blue(text),
        Some(TermColor::BrightMagenta) => bright_magenta(text),
        Some(TermColor::BrightCyan) => bright_cyan(text),
        Some(TermColor::BrightWhite) => bright_white(text),
    };
    proof {
        if let Some(c) = color_named(color_name@) {
            lemma_painted_in(text@, r@, color_code(c));
        }
    }
    r
}

/// How a piece of a line is styled.
#[derive(Debug, Clone, Copy, PartialEq, Eq, Structural)]
pub enum MarkStyle {
    Plain,
    Bold,
    Italic,
    Underline,
    Angle,
    Code,
}

/// A piece of a marked-up line: its text, its style, and the color tags
/// open around it, the first opened first.
#[derive(Debug)]
pub struct MarkToken {
    pub text: String,
    pub style: MarkStyle,
    pub colors: Vec<String>,
}

/// A token as plain values.
pub open spec fn token_view(t: MarkToken) -> (Seq<char>, MarkStyle, Seq<Seq<char>>) {
    (t.text@, t.style, views(t.colors@))
}

pub open spec fn token_views(ts: Seq<MarkToken>) -> Seq<(Seq<char>, MarkStyle, Seq<Seq<char>>)> {
    ts.map_values(|t: MarkToken| token_view(t))
}

/// The characters a backslash makes literal.
pub open spec fn is_escapable(c: char) -> bool {
    c == '*' || c == '<' || c == '>' || c == '`' || c == '_'
}

/// The open color tags after the tag with content `content`: `/` closes
/// the last one opened (if any), anything else opens a new one.
pub open spec fn tag_stack(stack: Seq<Seq<char>>, content: Seq<char>) -> Seq<Seq<char>> {
    if content == seq!['/'] {
        if stack.len() > 0 {
            stack.drop_last()
        } else {
            stack
        }
    } else {
        stack.push(content)
    }
}

/// The tokens of `cs` from position `i` on, with the color tags `stack`
/// open. At each position the first of these that applies is taken: a
/// backslash before one of `*<>`_` gives that character as plain text; `[[`
/// with a later `]]` is a color tag; `**` with a later `**` is bold; `*`,
/// `_` with a later one of the same are italic and underline; `<` with a
/// later `>` and a backquote with a later one are angle and code text,
/// delimiters included; any other character is plain text on its own.
pub open spec fn mark_tokens(cs: Seq<char>, i: int, stack: Seq<Seq<char>>) -> Seq<
    (Seq<char>, MarkStyle, Seq<Seq<char>>),
>
    decreases cs.len() - i,
{
    if i < 0 || i >= cs.len() {
        Seq::empty()
    } else if cs[i] == '\\' && i + 1 < cs.len() && is_escapable(cs[i + 1]) {
        seq![(seq![cs[i + 1]], MarkStyle::Plain, stack)] + mark_tokens(cs, i + 2, stack)
    } else if i + 1 < cs.len() && cs[i] == '[' && cs[i + 1] == '[' && tag_close(cs, i + 2) != -1 {
        let e = tag_close(cs, i + 2);
        proof {
            lemma_tag_close(cs, i + 2);
        }
        mark_tokens(cs, e + 2, tag_stack(stack, cs.subrange(i + 2, e)))
    } else if i + 1 < cs.len() && cs[i] == '*' && cs[i + 1] == '*' && first_delim(cs, i + 2, "**"@) != -1 {
        let e = first_delim(cs, i + 2, "**"@);
        proof {
            reveal_strlit("**");
            lemma_first_delim(cs, i + 2, "**"@);
        }
        seq![(cs.subrange(i + 2, e), MarkStyle::Bold, stack)] + mark_tokens(cs, e + 2, stack)
    } else if cs[i] == '*' && first_delim(cs, i + 1, "*"@) != -1 {
        let e = first_delim(cs, i + 1, "*"@);
        proof {
            lemma_first_delim(cs, i + 1, "*"@);
        }
        seq![(cs.subrange(i + 1, e), MarkStyle::Italic, stack)] + mark_tokens(cs, e + 1, stack)
    } else if cs[i] == '_' && first_delim(cs, i + 1, "_"@) != -1 {
        let e = first_delim(cs, i + 1, "_"@);
        proof {
            lemma_first_delim(cs, i + 1, "_"@);
        }
        seq![(cs.subrange(i + 1, e), MarkStyle::Underline, stack)] + mark_tokens(cs, e + 1, stack)
    } else if cs[i] == '<' && first_delim(cs, i + 1, ">"@) != -1 {
        let e = first_delim(cs, i + 1, ">"@);
        proof {
            lemma_first_delim(cs, i + 1, ">"@);
        }
        seq![(cs.subrange(i, e + 1), MarkStyle::Angle, stack)] + mark_tokens(cs, e + 1, stack)
    } else if cs[i] == '`' && first_delim(cs, i + 1, "`"@) != -1 {
        let e = first_delim(cs, i + 1, "`"@);
        proof {
            lemma_first_delim(cs, i + 1, "`"@);
        }
        seq![(cs.subrange(i, e + 1), MarkStyle::Code, stack)] + mark_tokens(cs, e + 1, stack)
    } else {
        seq![(seq![cs[i]], MarkStyle::Plain, stack)] + mark_tokens(cs, i + 1, stack)
    }
}

/// The tokens of a line of markup, in order.
pub fn line_tokens(line: &str) -> (r: Vec<MarkToken>)
    ensures
        token_views(r@) == mark_tokens(line@, 0, Seq::empty()),
{
    let chars = chars_of(line);
    let ghost cs = line@;
    let ghost all = mark_tokens(cs, 0, Seq::empty());
    let mut stack: Vec<String> = Vec::new();
    let mut toks: Vec<MarkToken> = Vec::new();
    let mut i: usize = 0;
    proof {
        reveal_strlit("**");
        reveal_strlit("*");
        reveal_strlit("_");
        reveal_strlit(">");
        reveal_strlit("`");
        assert(views(stack@) =~= Seq::<Seq<char>>::empty());
        assert(token_views(toks@) + mark_tokens(cs, 0, views(stack@)) =~= all);
    }
    while i < chars.len()
        invariant
            chars@ == cs,
            i <= cs.len(),
            all == mark_tokens(cs, 0, Seq::empty()),
            token_views(toks@) + mark_tokens(cs, i as int, views(stack@)) == all,
        decreases cs.len() - i,
    {
        let ghost before = token_views(toks@);
        let ghost st = views(stack@);
        let n = chars.len();
        let c = chars[i];
        let escaped = c == '\\' && i + 1 < n && {
            let d = chars[i + 1];
            d == '*' || d == '<' || d == '>' || d == '`' || d == '_'
        };
        if escaped {
            let text = string_of_range(&chars, i + 1, i + 2);
            toks.push(MarkToken { text, style: MarkStyle::Plain, colors: clone_strings(&stack) });
            proof {
                assert(text@ =~= seq![cs[i + 1]]);
                assert(token_views(toks@) =~= before.push((seq![cs[i + 1]], MarkStyle::Plain, st)));
                assert(before.push((seq![cs[i + 1]], MarkStyle::Plain, st)) + mark_tokens(cs, i + 2, st) =~= before + (
                seq![(seq![cs[i + 1]], MarkStyle::Plain, st)] + mark_tokens(cs, i + 2, st)));
            }
            i = i + 2;
        } else {
            let tag = if i + 1 < n && c == '[' && chars[i + 1] == '[' {
                find_tag_end(chars.as_slice(), i)
            } else {
                None
            };
            match tag {
                Some(end) => {
                    proof {
                        lemma_tag_close(cs, i + 2);
                    }
                    let content = string_of_range(&chars, i + 2, end);
                    if str_eq(content.as_str(), "/") {
                        let ghost old_stack = stack@;
                        stack.pop();
                        proof {
                            if old_stack.len() > 0 {
                                assert(views(stack@) =~= views(old_stack).drop_last());
                            }
                            reveal_strlit("/");
                            assert(content@ =~= seq!['/']);
                            assert(views(stack@) =~= tag_stack(st, cs.subrange(i + 2, end as int)));
                        }
                    } else {
                        let ghost cv = content@;
                        stack.push(content);
                        proof {
                            reveal_strlit("/");
                            assert("/"@ =~= seq!['/']);
                            assert(cv != seq!['/']);
                            assert(views(stack@) =~= st.push(cv));
                            assert(views(stack@) =~= tag_stack(st, cs.subrange(i + 2, end as int)));
                        }
                    }
                    i = end + 2;
                },
                None => {
                    let ghost tail = mark_tokens(cs, i as int, st);
                    let (tok, next) = next_styled(&chars, i, &stack);
                    toks.push(tok);
                    proof {
                        assert(token_views(toks@) =~= before.push(token_view(tok)));
                        assert(tail == seq![token_view(tok)] + mark_tokens(cs, next as int, st));
                        assert(before.push(token_view(tok)) + mark_tokens(cs, next as int, st) =~= before + (seq![
                            token_view(tok),
                        ] + mark_tokens(cs, next as int, st)));
                    }
                    i = next;
                },
            }
        }
    }
    proof {
        assert(mark_tokens(cs, i as int, views(stack@)) =~= Seq::empty());
        assert(token_views(toks@) =~= token_views(toks@) + Seq::<(Seq<char>, MarkStyle, Seq<Seq<char>>)>::empty());
    }
    toks
}

/// The styled (or plain) token at `i`, where neither an escape nor a color
/// tag stands, and the position after it.
fn next_styled(chars: &Vec<char>, i: usize, stack: &Vec<String>) -> (r: (MarkToken, usize))
    requires
        i < chars@.len(),
        !(chars@[i as int] == '\\' && i + 1 < chars@.len() && is_escapable(chars@[i + 1])),
        !(i + 1 < chars@.len() && chars@[i as int] == '[' && chars@[i + 1] == '[' && tag_close(chars@, i + 2) != -1),
    ensures
        i < r.1 <= chars@.len(),
        mark_tokens(chars@, i as int, views(stack@)) == seq![token_view(r.0)] + mark_tokens(chars@, r.1 as int, views(stack@)),
{
    let ghost cs = chars@;
    proof {
        reveal_strlit("**");
        reveal_strlit("*");
        reveal_strlit("_");
        reveal_strlit(">");
        reveal_strlit("`");
    }
    let n = chars.len();
    let c = chars[i];
    let bold_end = if i + 1 < n && c == '*' && chars[i + 1] == '*' {
        find_matching(chars.as_slice(), i + 2, "**")
    } else {
        None
    };
    if let Some(end) = bold_end {
        proof {
            lemma_first_delim(cs, i + 2, "**"@);
        }
        let text = string_of_range(chars, i + 2, end);
        return (MarkToken { text, style: MarkStyle::Bold, colors: clone_strings(stack) }, end + 2);
    }
    let single = if c == '*' {
        Some((find_matching(chars.as_slice(), i + 1, "*"), MarkStyle::Italic))
    } else if c == '_' {
        Some((find_matching(chars.as_slice(), i + 1, "_"), MarkStyle::Underline))
    } else if c == '<' {
        Some((find_matching(chars.as_slice(), i + 1, ">"), MarkStyle::Angle))
    } else if c == '`' {
        Some((find_matching(chars.as_slice(), i + 1, "`"), MarkStyle::Code))
    } else {
        None
    };
    match single {
        Some((Some(end), style)) => {
            proof {
                lemma_first_delim(cs, i + 1, "*"@);
                lemma_first_delim(cs, i + 1, "_"@);
                lemma_first_delim(cs, i + 1, ">"@);
                lemma_first_delim(cs, i + 1, "`"@);
            }
            let text = match style {
                MarkStyle::Italic => string_of_range(chars, i + 1, end),
                MarkStyle::Underline => string_of_range(chars, i + 1, end),
                _ => string_of_range(chars, i, end + 1),
            };
            (MarkToken { text, style, colors: clone_strings(stack) }, end + 1)
        },
        _ => {
            let text = string_of_range(chars, i, i + 1);
            proof {
                assert(text@ =~= seq![cs[i as int]]);
            }
            (MarkToken { text, style: MarkStyle::Plain, colors: clone_strings(stack) }, i + 1)
        },
    }
}

/// Whether some tag in `colors` names a known color.
pub open spec fn colors_known(colors: Seq<Seq<char>>) -> bool {
    exists|k: int| 0 <= k < colors.len() && #[trigger] color_named(colors[k]) is Some
}

/// Whether `ms` are the texts between the color tags `cols` applied to `t`,
/// the last tag first: `ms` ends with `t`, and each text is the one after
/// it with the tag at its place applied.
pub open spec fn stack_steps(t: Seq<char>, cols: Seq<Seq<char>>, ms: Seq<Seq<char>>) -> bool {
    &&& ms.len() == cols.len() + 1
    &&& ms[cols.len() as int] == t
    &&& forall|i: int| 0 <= i < cols.len() ==> color_step(ms[i + 1], #[trigger] cols[i], ms[i])
}

/// Whether `r` is `t` with the color tags `cols` applied, the last opened
/// innermost.
pub open spec fn stacked(t: Seq<char>, cols: Seq<Seq<char>>, r: Seq<char>) -> bool {
    exists|ms: Seq<Seq<char>>| #[trigger] stack_steps(t, cols, ms) && ms[0] == r
}

/// `text` in the colors of the open tags, the last opened innermost; tags
/// that name no known color leave it as it is.
pub fn apply_color_stack(text: &mut String, color_stack: &Vec<String>)
    ensures
        stacked(old(text)@, views(color_stack@), final(text)@),
        painted(old(text)@, final(text)@),
        !colors_known(views(color_stack@)) ==> final(text)@ == old(text)@,
{
    let ghost cols = views(color_stack@);
    let ghost start = text@;
    let mut result = text.clone();
    let mut k = color_stack.len();
    let ghost mut tail: Seq<Seq<char>> = seq![start];
    while k > 0
        invariant
            cols == views(color_stack@),
            k <= cols.len(),
            painted(start, result@),
            (forall|j: int| k <= j < cols.len() ==> #[trigger] color_named(cols[j]) is None) ==> result@ == start,
            tail.len() == cols.len() - k + 1,
            tail[0] == result@,
            tail[tail.len() - 1] == start,
            forall|i: int| 0 <= i < cols.len() - k ==> color_step(tail[i + 1], #[trigger] cols[k + i], tail[i]),
        decreases k,
    {
        let next = apply_color(result.as_str(), color_stack[k - 1].as_str());
        proof {
            lemma_painted_twice(start, result@, next@);
            assert(color_stack@[k - 1]@ == cols[k - 1]);
            let old_tail = tail;
            tail = seq![next@] + old_tail;
            assert forall|i: int| 0 <= i < cols.len() - (k - 1) implies color_step(
                tail[i + 1],
                #[trigger] cols[(k - 1) + i],
                tail[i],
            ) by {
                if i > 0 {
                    assert(tail[i + 1] == old_tail[i]);
                    assert(tail[i] == old_tail[i - 1]);
                    assert(cols[(k - 1) + i] == cols[k + (i - 1)]);
                }
            }
        }
        result = next;
        k = k - 1;
    }
    proof {
        assert forall|i: int| 0 <= i < cols.len() implies color_step(tail[i + 1], #[trigger] cols[i], tail[i]) by {
            assert(cols[0 + i] == cols[i]);
        }
        assert(stack_steps(start, cols, tail));
    }
    *text = result;
}

/// The text a token is painted from: an underlined token is wrapped in
/// the underline and reset sequences, any other is its own text.
pub open spec fn token_base(t: (Seq<char>, MarkStyle, Seq<Seq<char>>)) -> Seq<char> {
    if t.1 is Underline {
        "\x1b[4m"@ + t.0 + "\x1b[0m"@
    } else {
        t.0
    }
}

/// The `colored` codes of a token style that `colored` paints: bold,
/// italic, cyan for `<angle>`, green for `` `code` ``.
pub open spec fn style_code(st: MarkStyle) -> Seq<char> {
    match st {
        MarkStyle::Bold => "1"@,
        MarkStyle::Italic => "3"@,
        MarkStyle::Angle => "36"@,
        MarkStyle::Code => "32"@,
        _ => Seq::empty(),
    }
}

/// Whether `b` is the token `t` in its style, before its color tags: the
/// base text for a plain or underlined token, else the text painted in the
/// style's codes.
pub open spec fn styled(t: (Seq<char>, MarkStyle, Seq<Seq<char>>), b: Seq<char>) -> bool {
    if t.1 is Plain || t.1 is Underline {
        b == token_base(t)
    } else {
        painted_in(t.0, b, style_code(t.1))
    }
}

/// Whether `piece` is the token `t` as written out: the token in its style
/// with its color tags applied, the last opened innermost; so painted from
/// its base text, and exactly the base text when it is plain or underlined
/// and no tag around it names a known color.
pub open spec fn token_rendered(t: (Seq<char>, MarkStyle, Seq<Seq<char>>), piece: Seq<char>) -> bool {
    &&& exists|b: Seq<char>| styled(t, b) && #[trigger] stacked(b, t.2, piece)
    &&& painted(token_base(t), piece)
    &&& (!colors_known(t.2) && (t.1 is Plain || t.1 is Underline)) ==> piece == token_base(t)
}

/// One token written out with its style and colors.
pub fn render_token(tok: &MarkToken) -> (r: String)
    ensures
        token_rendered(token_view(*tok), r@),
{
    let mut s = match tok.style {
        MarkStyle::Plain => tok.text.clone(),
        MarkStyle::Bold => bold(tok.text.as_str()),
        MarkStyle::Italic => italic(tok.text.as_str()),
        MarkStyle::Underline => {
            let a = concat("\x1b[4m", tok.text.as_str());
            concat(a.as_str(), "\x1b[0m")
        },
        MarkStyle::Angle => cyan(tok.text.as_str()),
        MarkStyle::Code => green(tok.text.as_str()),
    };
    let ghost base = s@;
    proof {
        let t = token_view(*tok);
        if !(t.1 is Plain || t.1 is Underline) {
            lemma_painted_in(t.0, base, style_code(t.1));
        }
        assert(styled(t, base));
        assert(painted(token_base(t), base));
    }
    apply_color_stack(&mut s, &tok.colors);
    proof {
        lemma_painted_twice(token_base(token_view(*tok)), base, s@);
        assert(stacked(base, token_view(*tok).2, s@));
    }
    s
}

/// The pieces joined in order.
pub open spec fn concat_all(pieces: Seq<Seq<char>>) -> Seq<char>
    decreases pieces.len(),
{
    if pieces.len() == 0 {
        Seq::empty()
    } else {
        concat_all(pieces.drop_last()) + pieces.last()
    }
}

/// Whether `r` is the line of markup `line` written out: its tokens, each
/// written out, in order.
pub open spec fn marked(line: Seq<char>, r: Seq<char>) -> bool {
    let ts = mark_tokens(line, 0, Seq::empty());
    exists|pieces: Seq<Seq<char>>|
        #![trigger concat_all(pieces)]
        pieces.len() == ts.len() && r == concat_all(pieces) && forall|k: int|
            0 <= k < ts.len() ==> token_rendered(ts[k], #[trigger] pieces[k])
}

/// A line of markup written out with escape codes.
fn process_line(line: &str) -> (r: String)
    ensures
        marked(line@, r@),
{
    let toks = line_tokens(line);
    let ghost ts = mark_tokens(line@, 0, Seq::empty());
    let mut result = String::new();
    let ghost mut pieces: Seq<Seq<char>> = Seq::empty();
    let mut k: usize = 0;
    while k < toks.len()
        invariant
            token_views(toks@) == ts,
            k <= ts.len(),
            pieces.len() == k,
            result@ == concat_all(pieces),
            forall|j: int| 0 <= j < k ==> token_rendered(ts[j], #[trigger] pieces[j]),
        decreases ts.len() - k,
    {
        let piece = render_token(&toks[k]);
        proof {
            assert(token_view(toks@[k as int]) == ts[k as int]);
            assert(pieces.push(piece@).drop_last() =~= pieces);
            pieces = pieces.push(piece@);
        }
        result.append(piece.as_str());
        k = k + 1;
    }
    proof {
        assert(pieces.len() == ts.len() && result@ == concat_all(pieces));
    }
    result
}

/// `p` without one carriage return at its end.
pub open spec fn strip_cr(p: Seq<char>) -> Seq<char> {
    if p.len() > 0 && p.last() == '\r' {
        p.drop_last()
    } else {
        p
    }
}

/// The lines of `s` as `str::lines` gives them: split at each `\n`, a
/// `\r` just before a `\n` dropped, and no empty line after a final `\n`.
pub open spec fn text_lines(s: Seq<char>) -> Seq<Seq<char>> {
    let parts = sep_parts(s, '\n');
    let body = parts.take(parts.len() - 1).map_values(|p: Seq<char>| strip_cr(p));
    if parts.last().len() == 0 {
        body
    } else {
        body.push(parts.last())
    }
}

/// The lines of a text, as `str::lines` gives them.
pub(crate) fn lines_of(text: &str) -> (r: Vec<String>)
    ensures
        views(r@) == text_lines(text@),
{
    let parts = split_on(text, '\n');
    let ghost ps = sep_parts(text@, '\n');
    let n = parts.len();
    let mut out: Vec<String> = Vec::new();
    let mut k: usize = 0;
    while k + 1 < n
        invariant
            views(parts@) == ps,
            n == ps.len(),
            n >= 1,
            k < n,
            views(out@) == ps.take(k as int).map_values(|p: Seq<char>| strip_cr(p)),
        decreases n - k,
    {
        let v = chars_of(parts[k].as_str());
        let m = v.len();
        let line = if m > 0 && v[m - 1] == '\r' {
            string_of_range(&v, 0, m - 1)
        } else {
            string_of_range(&v, 0, m)
        };
        let ghost prev = views(out@);
        out.push(line);
        proof {
            assert(parts@[k as int]@ == ps[k as int]);
            assert(v@.subrange(0, m as int) =~= v@);
            assert(v@.subrange(0, m - 1) =~= v@.drop_last());
            assert(views(out@) =~= prev.push(strip_cr(ps[k as int])));
            assert(ps.take(k + 1).map_values(|p: Seq<char>| strip_cr(p)) =~= ps.take(k as int).map_values(
                |p: Seq<char>| strip_cr(p),
            ).push(strip_cr(ps[k as int])));
        }
        k = k + 1;
    }
    proof {
        assert(k == n - 1);
        assert(parts@[k as int]@ == ps.last());
    }
    if parts[k].unicode_len() > 0 {
        let ghost prev = views(out@);
        out.push(parts[k].clone());
        proof {
            assert(views(out@) =~= prev.push(ps.last()));
        }
    }
    out
}

/// The control sequences around a heading: bold black text on white.
pub open spec fn heading_open() -> Seq<char> {
    "\x1b[1m\x1b[47m\x1b[30m "@
}

pub open spec fn heading_close() -> Seq<char> {
    " \x1b[0m"@
}

/// The gray mark that stands for a `>` at the start of a line.
pub open spec fn quote_mark() -> Seq<char> {
    "\x1b[48;5;242m\x1b[38;5;242m \x1b[0m"@
}

/// A line is a heading when, leading blanks aside, it starts with `#`.
pub open spec fn is_heading(line: Seq<char>) -> bool {
    let t = trim_start_spec(line);
    t.len() > 0 && t[0] == '#'
}

/// The number of `#` that open `t` from `k` on, counting at most seven.
pub open spec fn lead_hashes(t: Seq<char>, k: int) -> int
    decreases 7 - k,
{
    if 0 <= k < t.len() && k < 7 && t[k] == '#' {
        lead_hashes(t, k + 1)
    } else {
        k
    }
}

/// The level of a heading: its number of `#`, at most six.
pub open spec fn heading_level(line: Seq<char>) -> int {
    let l = lead_hashes(trim_start_spec(line), 0);
    if l > 6 {
        6
    } else {
        l
    }
}

/// The text of a heading after its `#` and the blanks after them.
pub open spec fn heading_text(line: Seq<char>) -> Seq<char> {
    let t = trim_start_spec(line);
    t.skip(skip_spaces(t, lead_hashes(t, 0)))
}

/// A trimmed line is a quote when it starts with `>` not followed by a
/// backslash.
pub open spec fn is_quote(t: Seq<char>) -> bool {
    t.len() > 0 && t[0] == '>' && !(t.len() > 1 && t[1] == '\\')
}

/// The markup of a line, without what its layout adds: the text of a
/// heading, a quote after its `>`, or the trimmed line.
pub open spec fn line_source(line: Seq<char>) -> Seq<char> {
    if is_heading(line) {
        heading_text(line)
    } else if is_quote(trim_spec(line)) {
        trim_spec(line).skip(1)
    } else {
        trim_spec(line)
    }
}

/// The indentation of the content after `line`, when `ci` was the
/// indentation before it: a heading sets it to its level.
pub open spec fn indent_after(line: Seq<char>, ci: int) -> int {
    if is_heading(line) {
        heading_level(line)
    } else {
        ci
    }
}

/// The indentation of content lines before `lines[k]`.
pub open spec fn indent_before(lines: Seq<Seq<char>>, k: int) -> int
    decreases k,
{
    if k <= 0 {
        0
    } else {
        indent_after(lines[k - 1], indent_before(lines, k - 1))
    }
}

/// A line laid out, with `ci` the indentation of content and `body` its
/// markup written out: a heading indented by its level less one and framed,
/// an empty line as one space, a quote behind its gray mark, any other line
/// indented.
pub open spec fn line_frame(line: Seq<char>, ci: int, body: Seq<char>) -> Seq<char> {
    if is_heading(line) {
        spaces(heading_level(line) - 1) + heading_open() + body + heading_close()
    } else if trim_spec(line).len() == 0 {
        " "@
    } else if is_quote(trim_spec(line)) {
        spaces(ci) + quote_mark() + body
    } else {
        spaces(ci) + body
    }
}

/// The laid-out lines, given the written-out bodies.
pub open spec fn framed_lines(lines: Seq<Seq<char>>, bodies: Seq<Seq<char>>) -> Seq<Seq<char>> {
    Seq::new(lines.len(), |k: int| line_frame(lines[k], indent_before(lines, k), bodies[k]))
}

/// Whether `r` is the text of markup `text` written out: its lines laid
/// out, each with its markup written out, joined by newlines.
pub open spec fn marked_text(text: Seq<char>, r: Seq<char>) -> bool {
    let ls = text_lines(text);
    exists|bodies: Seq<Seq<char>>|
        #![trigger framed_lines(ls, bodies)]
        bodies.len() == ls.len() && (forall|k: int|
            0 <= k < ls.len() ==> marked(line_source(ls[k]), #[trigger] bodies[k])) && r == joined(
            framed_lines(ls, bodies),
            "\n"@,
        )
}

/// `n` spaces.
fn spaces_string(n: usize) -> (r: String)
    ensures
        r@ == spaces(n as int),
{
    let mut r = String::new();
    let mut k: usize = 0;
    while k < n
        invariant
            k <= n,
            r@ == spaces(k as int),
        decreases n - k,
    {
        push_char(&mut r, ' ');
        proof {
            assert(r@ =~= spaces(k + 1));
        }
        k = k + 1;
    }
    r
}

/// A trimmed line written out: a quote's `>` becomes the gray mark before
/// the rest; any other line is written out whole.
fn process_line_with_quote(line: &str) -> (r: String)
    ensures
        is_quote(line@) ==> exists|b: Seq<char>| marked(line@.skip(1), b) && r@ == quote_mark() + b,
        !is_quote(line@) ==> marked(line@, r@),
{
    let chars = chars_of(line);
    if chars.len() > 0 && chars[0] == '>' {
        if chars.len() > 1 && chars[1] == '\\' {
            return process_line(line);
        }
        let gray_bg_space = "\x1b[48;5;242m\x1b[38;5;242m \x1b[0m";
        let rest_of_line = string_of_range(&chars, 1, chars.len());
        let processed_rest = process_line(rest_of_line.as_str());
        let r = concat(gray_bg_space, processed_rest.as_str());
        proof {
            assert(rest_of_line@ =~= line@.skip(1));
            assert(marked(line@.skip(1), processed_rest@) && r@ == quote_mark() + processed_rest@);
        }
        r
    } else {
        process_line(line)
    }
}

/// Markup written out as terminal text with escape codes.
///
/// Within a line: `**bold**`, `*italic*`, `_underline_`, `<angle>` (cyan,
/// brackets kept), `` `code` `` (green, backquotes kept), `[[color]]` ...
/// `[[/]]` (nested, `[[/]]` closing the last opened) and `\` before one of
/// `*<>`_` for the character itself. A line starting with `#` to `######`
/// is a heading, indented by its level less one, and the lines after it
/// are indented by its level; a line starting with `>` is a quote, marked
/// in gray. Blank lines become a single space; lines are joined with
/// newlines.
pub fn parse(text: &str) -> (r: String)
    ensures
        marked_text(text@, r@),
{
    let lines = lines_of(text);
    let ghost ls = text_lines(text@);
    let mut frames: Vec<String> = Vec::new();
    let mut content_indent: usize = 0;
    let ghost mut bodies: Seq<Seq<char>> = Seq::empty();
    let mut k: usize = 0;
    while k < lines.len()
        invariant
            views(lines@) == ls,
            k <= ls.len(),
            bodies.len() == k,
            forall|j: int| 0 <= j < k ==> marked(line_source(ls[j]), #[trigger] bodies[j]),
            views(frames@) =~= framed_lines(ls.take(k as int), bodies),
            forall|j: int| 0 <= j < k ==> indent_before(ls.take(k as int), j) == #[trigger] indent_before(ls, j),
            content_indent == indent_before(ls, k as int),
            content_indent <= 6,
        decreases ls.len() - k,
    {
        let line = lines[k].as_str();
        let ghost l = ls[k as int];
        proof {
            assert(lines@[k as int]@ == l);
        }
        let start = trim_start(line);
        let chars = chars_of(start.as_str());
        let ghost mut body: Seq<char> = Seq::empty();
        let ghost ci0 = content_indent as int;
        let frame: String;
        if chars.len() > 0 && chars[0] == '#' {
            let mut level: usize = 0;
            while level < chars.len() && level < 7 && chars[level] == '#'
                invariant
                    level <= 7,
                    level <= chars@.len(),
                    chars@.len() > 0 && chars@[0] == '#',
                    lead_hashes(chars@, 0) == lead_hashes(chars@, level as int),
                decreases 7 - level,
            {
                level = level + 1;
            }
            let effective_level = if level > 6 {
                6
            } else {
                level
            };
            let mut content_start = level;
            while content_start < chars.len() && is_space_char(chars[content_start])
                invariant
                    level <= content_start <= chars@.len(),
                    skip_spaces(chars@, level as int) == skip_spaces(chars@, content_start as int),
                decreases chars@.len() - content_start,
            {
                content_start = content_start + 1;
            }
            let heading_content = string_of_range(&chars, content_start, chars.len());
            let processed = process_line(heading_content.as_str());
            let indent = spaces_string(effective_level - 1);
            let a = concat(indent.as_str(), "\x1b[1m\x1b[47m\x1b[30m ");
            let b = concat(a.as_str(), processed.as_str());
            frame = concat(b.as_str(), " \x1b[0m");
            content_indent = effective_level;
            proof {
                assert(heading_content@ =~= heading_text(l));
                body = processed@;
                assert(heading_level(l) == effective_level);
                assert(frame@ =~= line_frame(l, ci0, body));
            }
        } else {
            let trimmed = trim(line);
            if trimmed.unicode_len() == 0 {
                frame = owned(" ");
                proof {
                    assert(concat_all(Seq::<Seq<char>>::empty()) == Seq::<char>::empty());
                    assert(mark_tokens(line_source(l), 0, Seq::empty()) =~= Seq::empty());
                    assert(frame@ =~= line_frame(l, ci0, body));
                }
            } else {
                let processed = process_line_with_quote(trimmed.as_str());
                let indent = spaces_string(content_indent);
                frame = concat(indent.as_str(), processed.as_str());
                proof {
                    if is_quote(trimmed@) {
                        body = choose|b: Seq<char>| marked(trimmed@.skip(1), b) && processed@ == quote_mark() + b;
                    } else {
                        body = processed@;
                    }
                    assert(frame@ =~= line_frame(l, ci0, body));
                }
            }
        }
        let ghost prev = views(frames@);
        frames.push(frame);
        proof {
            let ls1 = ls.take(k + 1);
            assert(ls1.take(k as int) =~= ls.take(k as int));
            assert forall|j: int| 0 <= j <= k implies indent_before(ls1, j) == #[trigger] indent_before(ls, j) by {
                lemma_indent_prefix(ls1, ls, j);
            }
            assert forall|j: int| 0 <= j < k implies indent_before(ls.take(k as int), j) == #[trigger] indent_before(ls1, j) by {
                lemma_indent_prefix(ls.take(k as int), ls1, j);
            }
            assert(views(frames@) =~= prev.push(frame@));
            let old_bodies = bodies;
            bodies = bodies.push(body);
            assert forall|j: int| 0 <= j < k implies views(frames@)[j] == #[trigger] framed_lines(ls1, bodies)[j] by {
                assert(views(frames@)[j] == prev[j]);
                assert(prev[j] == framed_lines(ls.take(k as int), old_bodies)[j]);
                assert(ls.take(k as int)[j] == ls1[j]);
            }
            assert(views(frames@)[k as int] == framed_lines(ls1, bodies)[k as int]);
            assert(views(frames@) =~= framed_lines(ls1, bodies));
        }
        k = k + 1;
    }
    let r = join(&frames, "\n");
    proof {
        assert(ls.take(k as int) =~= ls);
        assert(r@ == joined(framed_lines(ls, bodies), "\n"@));
    }
    r
}

/// The indentation before a line depends only on the lines before it.
proof fn lemma_indent_prefix(a: Seq<Seq<char>>, b: Seq<Seq<char>>, j: int)
    requires
        0 <= j <= a.len(),
        j <= b.len(),
        forall|i: int| 0 <= i < j ==> a[i] == b[i],
    ensures
        indent_before(a, j) == indent_before(b, j),
    decreases j,
{
    if j > 0 {
        lemma_indent_prefix(a, b, j - 1);
    }
}

/// Text that can be written out as markup.
pub trait ColorCode {
    fn parse_color_code(&self) -> String;
}

impl<'a> ColorCode for &'a str {
    /// The text written out as markup.
    fn parse_color_code(&self) -> (r: String)
        ensures
            marked_text((**self)@, r@),
    {
        parse(*self)
    }
}

impl ColorCode for String {
    /// The text written out as markup.
    fn parse_color_code(&self) -> (r: String)
        ensures
            marked_text(self@, r@),
    {
        parse(self.as_str())
    }
}

/// `[[/]]` closes the tag opened last: opening a tag and closing it again
/// leaves the open tags as they were.
pub proof fn law_close_tag_restores(stack: Seq<Seq<char>>, content: Seq<char>)
    requires
        content != seq!['/'],
    ensures
        tag_stack(tag_stack(stack, content), seq!['/']) == stack,
{
    assert(stack.push(content).drop_last() =~= stack);
}

/// Whether `c` can start markup within a line.
pub open spec fn is_markup_char(c: char) -> bool {
    c == '\\' || c == '[' || c == '*' || c == '_' || c == '<' || c == '`'
}

proof fn lemma_plain_tokens(cs: Seq<char>, i: int)
    requires
        0 <= i <= cs.len(),
        forall|j: int| 0 <= j < cs.len() ==> !is_markup_char(#[trigger] cs[j]),
    ensures
        mark_tokens(cs, i, Seq::empty()) == Seq::new(
            (cs.len() - i) as nat,
            |k: int| (seq![cs[i + k]], MarkStyle::Plain, Seq::<Seq<char>>::empty()),
        ),
    decreases cs.len() - i,
{
    if i < cs.len() {
        assert(!is_markup_char(cs[i]));
        lemma_plain_tokens(cs, i + 1);
        assert(mark_tokens(cs, i, Seq::empty()) =~= Seq::new(
            (cs.len() - i) as nat,
            |k: int| (seq![cs[i + k]], MarkStyle::Plain, Seq::<Seq<char>>::empty()),
        ));
    } else {
        assert(mark_tokens(cs, i, Seq::empty()) =~= Seq::new(
            (cs.len() - i) as nat,
            |k: int| (seq![cs[i + k]], MarkStyle::Plain, Seq::<Seq<char>>::empty()),
        ));
    }
}

proof fn lemma_concat_singletons(pieces: Seq<Seq<char>>, cs: Seq<char>)
    requires
        pieces.len() == cs.len(),
        forall|k: int| 0 <= k < cs.len() ==> #[trigger] pieces[k] == seq![cs[k]],
    ensures
        concat_all(pieces) == cs,
    decreases cs.len(),
{
    if cs.len() > 0 {
        lemma_concat_singletons(pieces.drop_last(), cs.drop_last());
        assert(cs =~= cs.drop_last() + seq![cs.last()]);
    } else {
        assert(cs =~= Seq::<char>::empty());
    }
}

/// A line with no markup characters is written out exactly as it is.
pub proof fn law_plain_line_unchanged(line: Seq<char>, r: Seq<char>)
    requires
        forall|j: int| 0 <= j < line.len() ==> !is_markup_char(#[trigger] line[j]),
        marked(line, r),
    ensures
        r == line,
{
    lemma_plain_tokens(line, 0);
    let ts = mark_tokens(line, 0, Seq::empty());
    let pieces = choose|pieces: Seq<Seq<char>>|
        #![trigger concat_all(pieces)]
        pieces.len() == ts.len() && r == concat_all(pieces) && forall|k: int|
            0 <= k < ts.len() ==> token_rendered(ts[k], #[trigger] pieces[k]);
    assert forall|k: int| 0 <= k < line.len() implies #[trigger] pieces[k] == seq![line[k]] by {
        assert(token_rendered(ts[k], pieces[k]));
        assert(ts[k] == (seq![line[k]], MarkStyle::Plain, Seq::<Seq<char>>::empty()));
    }
    lemma_concat_singletons(pieces, line);
}

/// A heading's level is between one and six.
pub proof fn law_heading_level_range(line: Seq<char>)
    requires
        is_heading(line),
    ensures
        1 <= heading_level(line) <= 6,
{
    lemma_lead_hashes(trim_start_spec(line), 0);
    lemma_lead_hashes(trim_start_spec(line), 1);
}

proof fn lemma_lead_hashes(t: Seq<char>, k: int)
    requires
        0 <= k <= 7,
    ensures
        k <= lead_hashes(t, k) <= 7 || k > t.len(),
    decreases 7 - k,
{
    if 0 <= k < t.len() && k < 7 && t[k] == '#' {
        lemma_lead_hashes(t, k + 1);
    }
}

} // verus!
