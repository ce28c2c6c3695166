//! Decimal numerals and column alignment.
use vstd::prelude::*;
use vstd::string::*;

verus! {

/// The numeral of a number below ten.
pub open spec fn digit_char(digit: nat) -> char {
    (48 + digit) as char
}

/// The decimal numeral of `number`, without leading zeros.
pub open spec fn decimal(number: nat) -> Seq<char>
    decreases number,
{
    if number < 10 {
        seq![digit_char(number)]
    } else {
        decimal(number / 10).push(digit_char(number % 10))
    }
}

/// `count` spaces.
pub open spec fn spaces(count: nat) -> Seq<char> {
    Seq::new(count, |i: int| ' ')
}

/// `text` with spaces behind it up to `width` characters; longer text is kept whole.
pub open spec fn left_aligned(text: Seq<char>, width: nat) -> Seq<char> {
    if text.len() < width {
        text + spaces((width - text.len()) as nat)
    } else {
        text
    }
}

/// `text` with spaces before it up to `width` characters; longer text is kept whole.
pub open spec fn right_aligned(text: Seq<char>, width: nat) -> Seq<char> {
    if text.len() < width {
        spaces((width - text.len()) as nat) + text
    } else {
        text
    }
}

/// The views of a list of lines.
pub open spec fn lines_view(lines: Seq<String>) -> Seq<Seq<char>> {
    lines.map_values(|line: String| line@)
}

fn digit_text(digit: u8) -> (text: &'static str)
    requires
        digit < 10,
    ensures
        text@ == seq![digit_char(digit as nat)],
{
    proof {
        reveal_strlit("0");
        reveal_strlit("1");
        reveal_strlit("2");
        reveal_strlit("3");
        reveal_strlit("4");
        reveal_strlit("5");
        reveal_strlit("6");
        reveal_strlit("7");
        reveal_strlit("8");
        reveal_strlit("9");
    }
    let text: &'static str = match digit {
        0 => "0",
        1 => "1",
        2 => "2",
        3 => "3",
        4 => "4",
        5 => "5",
        6 => "6",
        7 => "7",
        8 => "8",
        _ => "9",
    };
    assert(text@ =~= seq![digit_char(digit as nat)]);
    text
}

/// Writes `number` in decimal.
pub fn decimal_text(number: u128) -> (text: String)
    ensures
        text@ == decimal(number as nat),
    decreases number,
{
    if number < 10 {
        digit_text(number as u8).to_string()
    } else {
        let mut text: String = decimal_text(number / 10);
        text.append(digit_text((number % 10) as u8));
        assert(text@ =~= decimal(number as nat));
        text
    }
}

/// A run of `count` spaces.
pub(crate) fn blank(count: usize) -> (text: String)
    ensures
        text@ == spaces(count as nat),
{
    let mut text: String = String::new();
    let mut done: usize = 0;
    proof {
        reveal_strlit(" ");
    }
    assert(text@ =~= spaces(0));
    while done < count
        invariant
            done <= count,
            text@ == spaces(done as nat),
            " "@ =~= seq![' '],
        decreases count - done,
    {
        text.append(" ");
        done = done + 1;
        assert(text@ =~= spaces(done as nat));
    }
    text
}

/// Appends `text` to `out`, then spaces up to `width` characters.
pub(crate) fn append_left_aligned(out: &mut String, text: &str, width: usize)
    ensures
        final(out)@ == old(out)@ + left_aligned(text@, width as nat),
{
    let len: usize = text.unicode_len();
    out.append(text);
    if len < width {
        out.append(blank(width - len).as_str());
        assert(out@ =~= old(out)@ + left_aligned(text@, width as nat));
    }
}

/// Appends spaces, then `text`, to fill `width` characters of `out`.
pub(crate) fn append_right_aligned(out: &mut String, text: &str, width: usize)
    ensures
        final(out)@ == old(out)@ + right_aligned(text@, width as nat),
{
    let len: usize = text.unicode_len();
    if len < width {
        out.append(blank(width - len).as_str());
    }
    out.append(text);
    assert(out@ =~= old(out)@ + right_aligned(text@, width as nat));
}

} // verus!
