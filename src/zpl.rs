//! Composing label markup from lines of text and a style.

use crate::sgd::views;
use vstd::prelude::*;

verus! {

/// How the lines of a message are laid out on a label.
#[derive(Clone)]
pub struct MessageStyle {
    pub font_size: i32,
    pub font_width: i32,
    pub invert: bool,
    pub font: String,
    pub line_padding: i32,
    pub start_point: i32,
}

/// The font size of a style that names none.
pub fn default_font_size() -> (r: i32)
    ensures
        r == 35,
{
    35
}

/// The font of a style that names none.
pub fn default_font() -> (r: String)
    ensures
        r@ == seq!['A'],
{
    proof {
        reveal_strlit("A");
    }
    "A".to_owned()
}

/// The character of a decimal digit.
pub open spec fn digit(d: nat) -> char {
    seq!['0', '1', '2', '3', '4', '5', '6', '7', '8', '9'][d as int]
}

/// The decimal digits of `n`, most significant first, without leading zeros.
pub open spec fn digits(n: nat) -> Seq<char>
    decreases n,
{
    if n < 10 {
        seq![digit(n)]
    } else {
        digits(n / 10).push(digit(n % 10))
    }
}

/// `n` written in decimal, with a leading `-` when it is negative.
pub open spec fn decimal(n: int) -> Seq<char> {
    if n < 0 {
        seq!['-'] + digits((-n) as nat)
    } else {
        digits(n as nat)
    }
}

/// The vertical position of the line at index `k`.
pub open spec fn offset(start: int, step: int, k: int) -> int {
    start + k * step
}

/// The markup that places one line of text at a vertical position.
pub open spec fn zpl_field(pos: int, text: Seq<char>) -> Seq<char> {
    "^FO10,"@ + decimal(pos) + "^FD"@ + text + "^FS"@
}

/// The markup of all lines: line `k` stands at `offset(start, step, k)`.
pub open spec fn zpl_lines(lines: Seq<Seq<char>>, start: int, step: int) -> Seq<char>
    decreases lines.len(),
{
    if lines.len() == 0 {
        Seq::empty()
    } else {
        zpl_lines(lines.drop_last(), start, step) + zpl_field(
            offset(start, step, lines.len() - 1),
            lines.last(),
        )
    }
}

pub open spec fn in_i32(x: int) -> bool {
    i32::MIN <= x <= i32::MAX
}

impl MessageStyle {
    /// The distance between two lines.
    pub open spec fn step(&self) -> int {
        self.font_size + self.line_padding
    }

    /// Whether laying out `n` lines keeps every position within `i32`.
    pub open spec fn fits(&self, n: nat) -> bool {
        n > 0 ==> {
            &&& in_i32(self.step())
            &&& forall|k: int| 1 <= k <= n ==> #[trigger] in_i32(offset(self.start_point as int, self.step(), k))
        }
    }

    /// The full label for `lines` in this style.
    pub open spec fn spec_message(&self, lines: Seq<Seq<char>>) -> Seq<char> {
        "^XA^CF"@ + self.font@ + ","@ + decimal(self.font_size as int) + ","@ + decimal(
            self.font_width as int,
        ) + "^PO"@ + (if self.invert {
            "I"@
        } else {
            "N"@
        }) + zpl_lines(lines, self.start_point as int, self.step()) + "^XZ"@
    }

    /// A copy of this style.
    pub fn duplicate(&self) -> (r: MessageStyle)
        ensures
            r.font_size == self.font_size,
            r.font_width == self.font_width,
            r.invert == self.invert,
            r.font@ == self.font@,
            r.line_padding == self.line_padding,
            r.start_point == self.start_point,
    {
        MessageStyle {
            font_size: self.font_size,
            font_width: self.font_width,
            invert: self.invert,
            font: self.font.clone(),
            line_padding: self.line_padding,
            start_point: self.start_point,
        }
    }

    /// Whether `n` lines can be laid out in this style.
    pub fn layout_fits(&self, n: usize) -> (r: bool)
        ensures
            r == self.fits(n as nat),
    {
        if n == 0 {
            return true;
        }
        let step: i64 = self.font_size as i64 + self.line_padding as i64;
        if step < i32::MIN as i64 || step > i32::MAX as i64 {
            return false;
        }
        let start: i128 = self.start_point as i128;
        proof {
            assert(-0x1_0000_0000_0000_0000_0000_0000 <= (n as int) * (step as int) <= 0x1_0000_0000_0000_0000_0000_0000)
                by (nonlinear_arith)
                requires
                    0 < n <= usize::MAX,
                    i32::MIN <= step <= i32::MAX,
            ;
        }
        let first: i128 = start + step as i128;
        let last: i128 = start + (n as i128) * (step as i128);
        let ok = i32::MIN as i128 <= first && first <= i32::MAX as i128 && i32::MIN as i128 <= last
            && last <= i32::MAX as i128;
        proof {
            let s = self.start_point as int;
            let d = self.step();
            assert(offset(s, d, 1) == first);
            assert(offset(s, d, n as int) == last);
            if ok {
                assert forall|k: int| 1 <= k <= n implies #[trigger] in_i32(offset(s, d, k)) by {
                    assert(offset(s, d, k) == s + k * d);
                    if d >= 0 {
                        assert(d <= k * d <= n * d) by (nonlinear_arith)
                            requires
                                1 <= k <= n,
                                d >= 0,
                        ;
                    } else {
                        assert(n * d <= k * d <= d) by (nonlinear_arith)
                            requires
                                1 <= k <= n,
                                d < 0,
                        ;
                    }
                }
            } else {
                if !in_i32(offset(s, d, 1)) {
                } else {
                    assert(!in_i32(offset(s, d, n as int)));
                }
            }
        }
        ok
    }

    /// The label markup that prints each of `message` on a line of its own.
    pub fn create_zpl_message(self, message: Vec<String>) -> (r: String)
        requires
            self.fits(message@.len()),
        ensures
            r@ == self.spec_message(views(message@)),
    {
        let font_size = self.font_size;
        let ghost start = self.start_point as int;
        let ghost step = self.step();
        let mut fo_acc: i32 = self.start_point;
        let mut label_body = String::new();
        let mut i: usize = 0;
        while i < message.len()
            invariant
                i <= message@.len(),
                font_size == self.font_size,
                self.fits(message@.len()),
                start == self.start_point,
                step == self.step(),
                fo_acc == offset(start, step, i as int),
                label_body@ == zpl_lines(views(message@).take(i as int), start, step),
            decreases message.len() - i,
        {
            label_body.append("^FO10,");
            push_decimal(&mut label_body, fo_acc);
            label_body.append("^FD");
            label_body.append(message[i].as_str());
            label_body.append("^FS");
            proof {
                let k = i as int;
                assert(offset(start, step, k + 1) == offset(start, step, k) + step) by (nonlinear_arith)
                    requires
                        offset(start, step, k) == start + k * step,
                        offset(start, step, k + 1) == start + (k + 1) * step,
                ;
                assert(in_i32(offset(start, step, k + 1)));
                assert(views(message@).take(k + 1).drop_last() =~= views(message@).take(k));
                assert(label_body@ =~= zpl_lines(views(message@).take(k + 1), start, step));
            }
            fo_acc = fo_acc + (font_size + self.line_padding);
            i += 1;
        }
        proof {
            assert(views(message@).take(i as int) =~= views(message@));
        }
        let mut zpl = String::new();
        zpl.append("^XA^CF");
        zpl.append(self.font.as_str());
        zpl.append(",");
        push_decimal(&mut zpl, font_size);
        zpl.append(",");
        push_decimal(&mut zpl, self.font_width);
        zpl.append("^PO");
        if self.invert {
            zpl.append("I");
        } else {
            zpl.append("N");
        }
        zpl.append(label_body.as_str());
        zpl.append("^XZ");
        proof {
            assert(zpl@ =~= self.spec_message(views(message@)));
        }
        zpl
    }
}

/// The text of one decimal digit.
fn digit_str(d: u32) -> (r: &'static str)
    requires
        d < 10,
    ensures
        r@ == seq![digit(d as nat)],
{
    proof {
        reveal_strlit("0");
        reveal_strlit("1");
        reveal_strlit("2");
        reveal_strlit("3");
        reveal_strlit("4");
        reveal_strlit("5");
        reveal_strlit("6");
        reveal_strlit("7");
        reveal_strlit("8");
        reveal_strlit("9");
    }
    match d {
        0 => "0",
        1 => "1",
        2 => "2",
        3 => "3",
        4 => "4",
        5 => "5",
        6 => "6",
        7 => "7",
        8 => "8",
        _ => "9",
    }
}

/// Append the decimal digits of `n`.
fn push_digits(out: &mut String, n: u32)
    ensures
        final(out)@ == old(out)@ + digits(n as nat),
    decreases n,
{
    if n >= 10 {
        push_digits(out, n / 10);
    }
    out.append(digit_str(n % 10));
}

/// Append `n` written in decimal.
pub fn push_decimal(out: &mut String, n: i32)
    ensures
        final(out)@ == old(out)@ + decimal(n as int),
{
    if n < 0 {
        proof {
            reveal_strlit("-");
        }
        out.append("-");
        let magnitude: u32 = (-(n as i64)) as u32;
        push_digits(out, magnitude);
    } else {
        push_digits(out, n as u32);
    }
}

} // verus!
