use vstd::prelude::*;
use vstd::string::StrSliceExecFns;
use vstd::string::StringExecFns;

verus! {

/// A colour as red, green, blue and alpha, each from 0 to 255.
#[derive(Clone, Copy, Debug, PartialEq, Eq, Hash, Structural)]
pub struct Color(pub u8, pub u8, pub u8, pub u8);

/// The value of a hexadecimal digit, of either case.
pub open spec fn hex_value(c: char) -> Option<int> {
    if '0' <= c <= '9' {
        Some(c as int - '0' as int)
    } else if 'a' <= c <= 'f' {
        Some(c as int - 'a' as int + 10)
    } else if 'A' <= c <= 'F' {
        Some(c as int - 'A' as int + 10)
    } else {
        None
    }
}

/// Every character of `s` but the first is a hexadecimal digit.
pub open spec fn digits_follow(s: Seq<char>) -> bool {
    forall|i: int| 1 <= i < s.len() ==> hex_value(#[trigger] s[i]).is_some()
}

/// `s` is a colour written as `#` and six hexadecimal digits.
pub open spec fn is_long_hex(s: Seq<char>) -> bool {
    s.len() == 7 && s[0] == '#' && digits_follow(s)
}

/// `s` is a colour written as `#` and three hexadecimal digits.
pub open spec fn is_short_hex(s: Seq<char>) -> bool {
    s.len() == 4 && s[0] == '#' && digits_follow(s)
}

/// The number that two hexadecimal digits write.
pub open spec fn hex_pair(high: char, low: char) -> u8 {
    (16 * hex_value(high).unwrap() + hex_value(low).unwrap()) as u8
}

/// The number that one hexadecimal digit stands for in the short form: the
/// digit written twice.
pub open spec fn hex_twice(digit: char) -> u8 {
    (17 * hex_value(digit).unwrap()) as u8
}

/// The red, green and blue that a text gives: two digits for each in the
/// long form, one digit, taken twice, in the short form. `None` for any
/// other text.
pub open spec fn parse_hex_color(s: Seq<char>) -> Option<(u8, u8, u8)> {
    if is_long_hex(s) {
        Some((hex_pair(s[1], s[2]), hex_pair(s[3], s[4]), hex_pair(s[5], s[6])))
    } else if is_short_hex(s) {
        Some((hex_twice(s[1]), hex_twice(s[2]), hex_twice(s[3])))
    } else {
        None
    }
}

/// The value of a hexadecimal digit.
fn digit_value(c: char) -> (value: Option<u8>)
    ensures
        match value {
            Some(v) => hex_value(c) == Some(v as int) && v < 16,
            None => hex_value(c).is_none(),
        },
{
    if c >= '0' && c <= '9' {
        Some((c as u32 - '0' as u32) as u8)
    } else if c >= 'a' && c <= 'f' {
        Some((c as u32 - 'a' as u32 + 10) as u8)
    } else if c >= 'A' && c <= 'F' {
        Some((c as u32 - 'A' as u32 + 10) as u8)
    } else {
        None
    }
}

/// The values of the digits that follow the first character of `s`, or
/// `None` where one of them is no digit.
fn digits_of(s: &str, n: usize) -> (values: Option<Vec<u8>>)
    requires
        s@.len() == n,
        n >= 1,
    ensures
        values.is_some() == digits_follow(s@),
        match values {
            Some(v) => v@.len() == n - 1 && forall|i: int|
                0 <= i < n - 1 ==> #[trigger] v@[i] < 16 && hex_value(s@[i + 1]) == Some(
                    v@[i] as int,
                ),
            None => true,
        },
{
    let mut values: Vec<u8> = Vec::new();
    let mut i: usize = 1;
    while i < n
        invariant
            1 <= i <= n,
            s@.len() == n,
            values@.len() == i - 1,
            forall|j: int| 1 <= j < i ==> hex_value(#[trigger] s@[j]).is_some(),
            forall|j: int|
                0 <= j < i - 1 ==> #[trigger] values@[j] < 16 && hex_value(s@[j + 1]) == Some(
                    values@[j] as int,
                ),
        decreases n - i,
    {
        match digit_value(s.get_char(i)) {
            Some(v) => {
                values.push(v);
            },
            None => {
                return None;
            },
        }
        i = i + 1;
    }
    Some(values)
}

/// Reads a colour written as `#rrggbb` or `#rgb`, in either case.
pub fn hex_color_to_rgb(s: &str) -> (rgb: Option<(u8, u8, u8)>)
    ensures
        rgb == parse_hex_color(s@),
{
    let n = s.unicode_len();
    if n != 7 && n != 4 {
        return None;
    }
    if s.get_char(0) != '#' {
        return None;
    }
    match digits_of(s, n) {
        Some(v) => {
            if n == 7 {
                Some((16 * v[0] + v[1], 16 * v[2] + v[3], 16 * v[4] + v[5]))
            } else {
                Some((17 * v[0], 17 * v[1], 17 * v[2]))
            }
        },
        None => None,
    }
}

/// Reads a colour written as `#rrggbb`; it is opaque.
pub fn hex(s: &str) -> (rgba: (u8, u8, u8, u8))
    requires
        is_long_hex(s@),
    ensures
        parse_hex_color(s@) == Some((rgba.0, rgba.1, rgba.2)),
        rgba.3 == 255,
{
    match hex_color_to_rgb(s) {
        Some((r, g, b)) => (r, g, b, 255),
        None => vstd::pervasive::unreached(),
    }
}

/// The text of one hexadecimal digit, in upper case.
pub open spec fn hex_digit(value: int) -> char {
    if value < 10 {
        ('0' as int + value) as char
    } else {
        ('A' as int + value - 10) as char
    }
}

/// A colour written as `#RRGGBB`; the alpha is not written.
pub open spec fn hex_text(color: Color) -> Seq<char> {
    seq![
        '#',
        hex_digit(color.0 as int / 16),
        hex_digit(color.0 as int % 16),
        hex_digit(color.1 as int / 16),
        hex_digit(color.1 as int % 16),
        hex_digit(color.2 as int / 16),
        hex_digit(color.2 as int % 16),
    ]
}

/// The text of the hexadecimal digit `value`.
fn digit_text(value: u8) -> (text: &'static str)
    requires
        value < 16,
    ensures
        text@ == seq![hex_digit(value as int)],
{
    proof {
        reveal_strlit("0");
        reveal_strlit("1");
        reveal_strlit("2");
        reveal_strlit("3");
        reveal_strlit("4");
        reveal_strlit("5");
        reveal_strlit("6");
        reveal_strlit("7");
        reveal_strlit("8");
        reveal_strlit("9");
        reveal_strlit("A");
        reveal_strlit("B");
        reveal_strlit("C");
        reveal_strlit("D");
        reveal_strlit("E");
        reveal_strlit("F");
    }
    let text = if value == 0 {
        "0"
    } else if value == 1 {
        "1"
    } else if value == 2 {
        "2"
    } else if value == 3 {
        "3"
    } else if value == 4 {
        "4"
    } else if value == 5 {
        "5"
    } else if value == 6 {
        "6"
    } else if value == 7 {
        "7"
    } else if value == 8 {
        "8"
    } else if value == 9 {
        "9"
    } else if value == 10 {
        "A"
    } else if value == 11 {
        "B"
    } else if value == 12 {
        "C"
    } else if value == 13 {
        "D"
    } else if value == 14 {
        "E"
    } else {
        "F"
    };
    assert(text@ =~= seq![hex_digit(value as int)]);
    text
}

impl Color {
    pub fn black() -> (color: Self)
        ensures
            color == Color(0, 0, 0, 255),
    {
        Color(0, 0, 0, 255)
    }

    pub fn blue_ink() -> (color: Self)
        ensures
            color == Color(0, 0, 255, 255),
    {
        Color(0, 0, 255, 255)
    }

    pub fn green_ink() -> (color: Self)
        ensures
            color == Color(0, 255, 0, 255),
    {
        Color(0, 255, 0, 255)
    }

    pub fn red_ink() -> (color: Self)
        ensures
            color == Color(255, 0, 0, 255),
    {
        Color(255, 0, 0, 255)
    }

    pub fn white() -> (color: Self)
        ensures
            color == Color(255, 255, 255, 255),
    {
        Color(255, 255, 255, 255)
    }

    /// The colour that stands for "draw nothing".
    pub fn transparent() -> (color: Self)
        ensures
            color == Color(255, 255, 255, 255),
    {
        Color(255, 255, 255, 255)
    }

    /// An opaque colour.
    pub fn new(red: u8, green: u8, blue: u8) -> (color: Self)
        ensures
            color == Color(red, green, blue, 255),
    {
        Self::new_alpha(red, green, blue, 255)
    }

    pub fn new_alpha(red: u8, green: u8, blue: u8, alpha: u8) -> (color: Self)
        ensures
            color == Color(red, green, blue, alpha),
    {
        Color(red, green, blue, alpha)
    }

    /// The same colour with another alpha.
    pub fn with_alpha(self, new_alpha: u8) -> (color: Self)
        ensures
            color == Color(self.0, self.1, self.2, new_alpha),
    {
        Self::new_alpha(self.0, self.1, self.2, new_alpha)
    }

    /// Reads an opaque colour written as `#rrggbb` or `#rgb`.
    pub fn try_from_hex(s: &str) -> (color: Option<Self>)
        ensures
            color == match parse_hex_color(s@) {
                Some((r, g, b)) => Some(Color(r, g, b, 255)),
                None => None,
            },
    {
        match hex_color_to_rgb(s) {
            Some((r, g, b)) => Some(Self::new(r, g, b)),
            None => None,
        }
    }

    /// Reads an opaque colour written as `#rrggbb`.
    pub fn from_hex(s: &str) -> (color: Self)
        requires
            is_long_hex(s@),
        ensures
            parse_hex_color(s@) == Some((color.0, color.1, color.2)),
            color.3 == 255,
    {
        let (r, g, b, a) = hex(s);
        Color(r, g, b, a)
    }

    pub fn red(&self) -> (red: u8)
        ensures
            red == self.0,
    {
        self.0
    }

    pub fn green(&self) -> (green: u8)
        ensures
            green == self.1,
    {
        self.1
    }

    pub fn blue(&self) -> (blue: u8)
        ensures
            blue == self.2,
    {
        self.2
    }

    pub fn alpha(&self) -> (alpha: u8)
        ensures
            alpha == self.3,
    {
        self.3
    }

    /// Whether the colour is any other than `transparent`.
    pub fn is_visible(&self) -> (visible: bool)
        ensures
            visible == (*self != Color(255, 255, 255, 255)),
    {
        !(self.0 == 255 && self.1 == 255 && self.2 == 255 && self.3 == 255)
    }

    /// Writes the colour as `#RRGGBB`.
    pub fn to_hex_string(&self) -> (text: String)
        ensures
            text@ == hex_text(*self),
    {
        proof {
            reveal_strlit("#");
        }
        let mut text = String::from_str("#");
        text.append(digit_text(self.0 / 16));
        text.append(digit_text(self.0 % 16));
        text.append(digit_text(self.1 / 16));
        text.append(digit_text(self.1 % 16));
        text.append(digit_text(self.2 / 16));
        text.append(digit_text(self.2 % 16));
        assert(text@ =~= hex_text(*self));
        text
    }
}

impl Default for Color {
    fn default() -> (color: Self)
        ensures
            color == Color(0, 0, 0, 255),
    {
        Color(0, 0, 0, 255)
    }
}

/// A colour that is written and read again is the same colour, made opaque.
pub proof fn lemma_hex_text_reads_back(color: Color)
    ensures
        parse_hex_color(hex_text(color)) == Some((color.0, color.1, color.2)),
{
    let s = hex_text(color);
    lemma_digit_reads_back(color.0 as int / 16);
    lemma_digit_reads_back(color.0 as int % 16);
    lemma_digit_reads_back(color.1 as int / 16);
    lemma_digit_reads_back(color.1 as int % 16);
    lemma_digit_reads_back(color.2 as int / 16);
    lemma_digit_reads_back(color.2 as int % 16);
    assert(s.len() == 7);
    assert forall|i: int| 1 <= i < s.len() implies hex_value(#[trigger] s[i]).is_some() by {
        if i == 1 {
        } else if i == 2 {
        } else if i == 3 {
        } else if i == 4 {
        } else if i == 5 {
        } else {
        }
    }
}

/// The text of a hexadecimal digit has the value of the digit.
pub proof fn lemma_digit_reads_back(value: int)
    requires
        0 <= value < 16,
    ensures
        hex_value(hex_digit(value)) == Some(value),
{
}

} // verus!
