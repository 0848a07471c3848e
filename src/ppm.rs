use vstd::prelude::*;

use crate::decimal::{decimal, lemma_decimal_digits, push_decimal};

verus! {

/// Line feed, which ends every line of the image text.
pub const NEWLINE: u8 = 10;

/// Space, which separates the numbers on a line.
pub const SPACE: u8 = 32;

/// A display-ready pixel: red, green and blue, each in `0..=255`.
#[derive(Clone, Copy, Debug, PartialEq, Eq, Structural)]
pub struct Rgb {
    pub r: u8,
    pub g: u8,
    pub b: u8,
}

/// The magic number line, `P3`.
pub open spec fn magic_line() -> Seq<u8> {
    seq![80u8, 51u8]
}

/// The largest-channel-value line, `255`.
pub open spec fn max_value_line() -> Seq<u8> {
    seq![50u8, 53u8, 53u8]
}

/// The size line, `<width> <height>`.
pub open spec fn size_line(width: nat, height: nat) -> Seq<u8> {
    decimal(width) + seq![SPACE] + decimal(height)
}

/// The line of one pixel, `<red> <green> <blue>`.
pub open spec fn pixel_line(c: Rgb) -> Seq<u8> {
    decimal(c.r as nat) + seq![SPACE] + decimal(c.g as nat) + seq![SPACE] + decimal(c.b as nat)
}

/// The three header lines.
pub open spec fn header_lines(width: nat, height: nat) -> Seq<Seq<u8>> {
    seq![magic_line(), size_line(width, height), max_value_line()]
}

/// The lines of an image: the header, then one line per pixel in the given order.
pub open spec fn image_lines(width: nat, height: nat, pixels: Seq<Rgb>) -> Seq<Seq<u8>> {
    header_lines(width, height) + pixels.map_values(|c: Rgb| pixel_line(c))
}

/// The text made of `lines`, each followed by a line feed.
pub open spec fn terminated(lines: Seq<Seq<u8>>) -> Seq<u8>
    decreases lines.len(),
{
    if lines.len() == 0 {
        seq![]
    } else {
        lines[0] + seq![NEWLINE] + terminated(lines.drop_first())
    }
}

/// The position of the first line feed of `s`, or its length when it has none.
pub open spec fn line_end(s: Seq<u8>) -> nat
    decreases s.len(),
{
    if s.len() == 0 {
        0
    } else if s[0] == NEWLINE {
        0
    } else {
        1 + line_end(s.drop_first())
    }
}

/// `s` split into lines at its line feeds; a final line feed opens no empty line.
pub open spec fn lines_of(s: Seq<u8>) -> Seq<Seq<u8>>
    decreases s.len(),
{
    if s.len() == 0 {
        seq![]
    } else if line_end(s) >= s.len() {
        seq![s]
    } else {
        seq![s.take(line_end(s) as int)] + lines_of(s.skip(line_end(s) + 1int))
    }
}

/// `line` holds no line feed.
pub open spec fn single_line(line: Seq<u8>) -> bool {
    forall|i: int| 0 <= i < line.len() ==> line[i] != NEWLINE
}

/// The text of the whole image.
pub open spec fn image_text(width: nat, height: nat, pixels: Seq<Rgb>) -> Seq<u8> {
    terminated(image_lines(width, height, pixels))
}

pub proof fn lemma_terminated_append(a: Seq<Seq<u8>>, b: Seq<Seq<u8>>)
    ensures
        terminated(a + b) == terminated(a) + terminated(b),
    decreases a.len(),
{
    if a.len() == 0 {
        assert(a + b =~= b);
        assert(terminated(a) + terminated(b) =~= terminated(b));
    } else {
        assert((a + b).drop_first() =~= a.drop_first() + b);
        lemma_terminated_append(a.drop_first(), b);
        assert(terminated(a + b) =~= terminated(a) + terminated(b));
    }
}

/// A single terminated line is that line and a line feed.
pub proof fn lemma_terminated_one(line: Seq<u8>)
    ensures
        terminated(seq![line]) == line + seq![NEWLINE],
{
    let ls = seq![line];
    assert(ls.drop_first() =~= Seq::<Seq<u8>>::empty());
    assert(terminated(ls.drop_first()) =~= Seq::<u8>::empty());
    assert(terminated(ls) =~= line + seq![NEWLINE]);
}

proof fn lemma_line_end(line: Seq<u8>, rest: Seq<u8>)
    requires
        single_line(line),
    ensures
        line_end(line + seq![NEWLINE] + rest) == line.len(),
    decreases line.len(),
{
    let s = line + seq![NEWLINE] + rest;
    if line.len() > 0 {
        assert(s.drop_first() =~= line.drop_first() + seq![NEWLINE] + rest);
        lemma_line_end(line.drop_first(), rest);
    }
}

/// Splitting a terminated text at its line feeds gives back its lines.
pub proof fn lemma_lines_of_terminated(lines: Seq<Seq<u8>>)
    requires
        forall|i: int| 0 <= i < lines.len() ==> single_line(#[trigger] lines[i]),
    ensures
        lines_of(terminated(lines)) == lines,
    decreases lines.len(),
{
    if lines.len() > 0 {
        let rest = terminated(lines.drop_first());
        let s = terminated(lines);
        assert(single_line(lines[0]));
        lemma_line_end(lines[0], rest);
        assert(s.take(lines[0].len() as int) =~= lines[0]);
        assert(s.skip(lines[0].len() + 1int) =~= rest);
        assert forall|i: int| 0 <= i < lines.drop_first().len() implies single_line(
            #[trigger] lines.drop_first()[i],
        ) by {
            assert(lines.drop_first()[i] == lines[i + 1]);
        }
        lemma_lines_of_terminated(lines.drop_first());
        assert(lines_of(s) =~= seq![lines[0]] + lines.drop_first());
        assert(seq![lines[0]] + lines.drop_first() =~= lines);
    } else {
        assert(lines =~= seq![]);
    }
}

proof fn lemma_decimal_single_line(n: nat)
    ensures
        single_line(decimal(n)),
{
    lemma_decimal_digits(n);
}

/// Every line of an image is free of line feeds.
pub proof fn lemma_image_lines_single(width: nat, height: nat, pixels: Seq<Rgb>)
    ensures
        forall|i: int|
            0 <= i < image_lines(width, height, pixels).len() ==> single_line(
                #[trigger] image_lines(width, height, pixels)[i],
            ),
{
    let lines = image_lines(width, height, pixels);
    lemma_decimal_single_line(width);
    lemma_decimal_single_line(height);
    assert forall|i: int| 0 <= i < lines.len() implies single_line(#[trigger] lines[i]) by {
        if i >= 3 {
            let c = pixels[i - 3];
            assert(lines[i] == pixel_line(c));
            lemma_decimal_single_line(c.r as nat);
            lemma_decimal_single_line(c.g as nat);
            lemma_decimal_single_line(c.b as nat);
        }
    }
}

/// The text of an image of `width` by `height` pixels, split at its line feeds,
/// has `3 + width * height` lines: `P3`, the size line, `255`, then for each
/// pixel in order its three channel values in decimal, separated by spaces.
pub proof fn lemma_image_layout(width: nat, height: nat, pixels: Seq<Rgb>)
    requires
        pixels.len() == width * height,
    ensures
        lines_of(image_text(width, height, pixels)).len() == 3 + width * height,
        lines_of(image_text(width, height, pixels))[0] == magic_line(),
        lines_of(image_text(width, height, pixels))[1] == decimal(width) + seq![SPACE]
            + decimal(height),
        lines_of(image_text(width, height, pixels))[2] == max_value_line(),
        forall|i: int|
            0 <= i < width * height ==> #[trigger] lines_of(image_text(width, height, pixels))[3
                + i] == pixel_line(pixels[i]),
{
    lemma_image_lines_single(width, height, pixels);
    lemma_lines_of_terminated(image_lines(width, height, pixels));
}

/// The header text: `P3`, the size line and `255`, each ended by a line feed.
pub fn header_text(width: u32, height: u32) -> (r: Vec<u8>)
    ensures
        r@ == terminated(header_lines(width as nat, height as nat)),
{
    let mut out: Vec<u8> = Vec::new();
    out.push(80u8);
    out.push(51u8);
    out.push(NEWLINE);
    push_decimal(&mut out, width);
    out.push(SPACE);
    push_decimal(&mut out, height);
    out.push(NEWLINE);
    out.push(50u8);
    out.push(53u8);
    out.push(53u8);
    out.push(NEWLINE);
    proof {
        let ls = header_lines(width as nat, height as nat);
        let l1 = ls.drop_first();
        let l2 = l1.drop_first();
        assert(l2 =~= seq![max_value_line()]);
        lemma_terminated_one(max_value_line());
        assert(terminated(l1) =~= size_line(width as nat, height as nat) + seq![NEWLINE]
            + terminated(l2));
        assert(out@ =~= terminated(ls));
    }
    out
}

/// The text of one pixel: its line, ended by a line feed.
pub fn pixel_text(c: Rgb) -> (r: Vec<u8>)
    ensures
        r@ == terminated(seq![pixel_line(c)]),
{
    let mut out: Vec<u8> = Vec::new();
    push_decimal(&mut out, c.r as u32);
    out.push(SPACE);
    push_decimal(&mut out, c.g as u32);
    out.push(SPACE);
    push_decimal(&mut out, c.b as u32);
    out.push(NEWLINE);
    proof {
        let ls = seq![pixel_line(c)];
        lemma_terminated_one(pixel_line(c));
        assert(out@ =~= terminated(ls));
    }
    out
}

} // verus!
