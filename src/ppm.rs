//! The plain-text image format: a header giving the size and the largest
//! channel value, then one line of three decimal channel values per pixel.
use vstd::prelude::*;
use vstd::string::*;

verus! {

/// Largest value of a color channel in the image text.
pub const MAX_CHANNEL: u64 = 255;

/// The ASCII digit for `d`, where `d < 10`.
pub open spec fn digit_char(d: nat) -> char {
    seq!['0', '1', '2', '3', '4', '5', '6', '7', '8', '9'][d as int]
}

/// The decimal digits of `n`, most significant first, with no leading zero.
pub open spec fn decimal_text(n: nat) -> Seq<char>
    decreases n,
{
    if n < 10 {
        seq![digit_char(n)]
    } else {
        decimal_text(n / 10) + seq![digit_char(n % 10)]
    }
}

/// The header of an image of `width` by `height` pixels: `P3`, then the
/// size, then the largest channel value, one to a line.
pub open spec fn header_text(width: nat, height: nat) -> Seq<char> {
    seq!['P', '3', '\n'] + decimal_text(width) + seq![' '] + decimal_text(height) + seq!['\n']
        + decimal_text(MAX_CHANNEL as nat) + seq!['\n']
}

/// The text of one pixel: its three channel values, separated by spaces.
pub open spec fn pixel_line_text(r: nat, g: nat, b: nat) -> Seq<char> {
    decimal_text(r) + seq![' '] + decimal_text(g) + seq![' '] + decimal_text(b)
}

fn digit_str(d: u64) -> (r: &'static str)
    requires
        d < 10,
    ensures
        r@ == seq![digit_char(d as nat)],
{
    proof {
        reveal_strlit("0");
        reveal_strlit("1");
        reveal_strlit("2");
        reveal_strlit("3");
        reveal_strlit("4");
        reveal_strlit("5");
        reveal_strlit("6");
        reveal_strlit("7");
        reveal_strlit("8");
        reveal_strlit("9");
    }
    let r = match d {
        0 => "0",
        1 => "1",
        2 => "2",
        3 => "3",
        4 => "4",
        5 => "5",
        6 => "6",
        7 => "7",
        8 => "8",
        _ => "9",
    };
    assert(r@ =~= seq![digit_char(d as nat)]);
    r
}

fn append_decimal(s: &mut String, n: u64)
    ensures
        final(s)@ == old(s)@ + decimal_text(n as nat),
    decreases n,
{
    if n >= 10 {
        append_decimal(s, n / 10);
    }
    s.append(digit_str(n % 10));
    assert(final(s)@ =~= old(s)@ + decimal_text(n as nat));
}

/// `n` written in decimal.
pub fn decimal_string(n: u64) -> (r: String)
    ensures
        r@ == decimal_text(n as nat),
{
    let mut s = String::new();
    append_decimal(&mut s, n);
    assert(s@ =~= decimal_text(n as nat));
    s
}

/// The header of an image of `image_width` by `image_height` pixels,
/// each of its three lines ended by a newline.
pub fn ppm_header(image_width: usize, image_height: usize) -> (r: String)
    ensures
        r@ == header_text(image_width as nat, image_height as nat),
{
    proof {
        reveal_strlit("P3\n");
        reveal_strlit(" ");
        reveal_strlit("\n");
    }
    let mut s = String::from_str("P3\n");
    append_decimal(&mut s, image_width as u64);
    s.append(" ");
    append_decimal(&mut s, image_height as u64);
    s.append("\n");
    append_decimal(&mut s, MAX_CHANNEL);
    s.append("\n");
    assert(s@ =~= header_text(image_width as nat, image_height as nat));
    s
}

/// The line of one pixel, without its newline: the red, green and blue
/// values in decimal, separated by single spaces.
pub fn pixel_line(r: u64, g: u64, b: u64) -> (t: String)
    ensures
        t@ == pixel_line_text(r as nat, g as nat, b as nat),
{
    proof {
        reveal_strlit(" ");
    }
    let mut s = String::new();
    append_decimal(&mut s, r);
    s.append(" ");
    append_decimal(&mut s, g);
    s.append(" ");
    append_decimal(&mut s, b);
    assert(s@ =~= pixel_line_text(r as nat, g as nat, b as nat));
    s
}

} // verus!
