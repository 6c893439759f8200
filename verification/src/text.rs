//! The printed form of a listed output: one line for the model, one for
//! each field that is present, and one for each mode.

use crate::display::{DisplayOutput, DisplayRecord, texts};
use vstd::prelude::*;

verus! {

/// The character of a decimal digit.
pub open spec fn digit(d: int) -> char {
    if d == 0 {
        '0'
    } else if d == 1 {
        '1'
    } else if d == 2 {
        '2'
    } else if d == 3 {
        '3'
    } else if d == 4 {
        '4'
    } else if d == 5 {
        '5'
    } else if d == 6 {
        '6'
    } else if d == 7 {
        '7'
    } else if d == 8 {
        '8'
    } else {
        '9'
    }
}

/// The decimal digits of `n`, without leading zeros.
pub open spec fn digits(n: nat) -> Seq<char>
    decreases n,
{
    if n < 10 {
        seq![digit(n as int)]
    } else {
        digits(n / 10).push(digit((n % 10) as int))
    }
}

/// `n` in decimal, with a minus sign where it is negative.
pub open spec fn decimal(n: int) -> Seq<char> {
    if n < 0 {
        seq!['-'] + digits((-n) as nat)
    } else {
        digits(n as nat)
    }
}

/// The text of a string in its quoted, escaped form.
pub uninterp spec fn debug_text(s: Seq<char>) -> Seq<char>;

/// `acc` followed by a line that holds a label and a text.
pub open spec fn with_line(acc: Seq<char>, label: Seq<char>, value: Seq<char>) -> Seq<char> {
    acc + label + value + "\n"@
}

/// `acc` followed by a labelled line where there is a text, else `acc`.
pub open spec fn with_optional_line(
    acc: Seq<char>,
    label: Seq<char>,
    value: Option<Seq<char>>,
) -> Seq<char> {
    match value {
        Some(v) => with_line(acc, label, v),
        None => acc,
    }
}

/// `acc` followed by a line that holds two labelled numbers.
pub open spec fn with_pair_line(
    acc: Seq<char>,
    first: Seq<char>,
    a: i32,
    second: Seq<char>,
    b: i32,
    end: Seq<char>,
) -> Seq<char> {
    acc + first + decimal(a as int) + second + decimal(b as int) + end
}

/// `acc` followed by a line of two labelled numbers where there is a pair,
/// else `acc`.
pub open spec fn with_optional_pair_line(
    acc: Seq<char>,
    first: Seq<char>,
    second: Seq<char>,
    pair: Option<(i32, i32)>,
) -> Seq<char> {
    match pair {
        Some((a, b)) => with_pair_line(acc, first, a, second, b, "\n"@),
        None => acc,
    }
}

/// `acc` followed by one indented line for each mode, in order.
pub open spec fn with_mode_lines(acc: Seq<char>, modes: Seq<Seq<char>>) -> Seq<char>
    decreases modes.len(),
{
    if modes.len() == 0 {
        acc
    } else {
        with_mode_lines(acc, modes.drop_last()) + "\t\t"@ + modes.last() + "\n"@
    }
}

/// The printed form of a listed output.
pub open spec fn rendered(d: DisplayRecord) -> Seq<char> {
    let a = d.model + "\n"@;
    let a = with_optional_line(a, "\tname: "@, d.name);
    let a = with_optional_line(a, "\tdescription: "@, d.description);
    let a = with_line(a, "\tmake: "@, d.make);
    let a = with_pair_line(a, "\tx: "@, d.location.0, ", y: "@, d.location.1, "\n"@);
    let a = with_line(a, "\tsubpixel: "@, debug_text(d.subpixel));
    let a = with_pair_line(
        a,
        "\tphysical_size: "@,
        d.physical_size.0,
        "×"@,
        d.physical_size.1,
        "mm\n"@,
    );
    let a = with_optional_pair_line(a, "\tlogical x: "@, ", y: "@, d.logical_position);
    let a = with_optional_pair_line(a, "\tlogical width: "@, ", height: "@, d.logical_size);
    with_mode_lines(a + "\tmodes:\n"@, d.modes)
}

fn digit_str(d: u32) -> (r: &'static str)
    requires
        d < 10,
    ensures
        r@ == seq![digit(d as int)],
{
    proof {
        reveal_strlit("0");
        reveal_strlit("1");
        reveal_strlit("2");
        reveal_strlit("3");
        reveal_strlit("4");
        reveal_strlit("5");
        reveal_strlit("6");
        reveal_strlit("7");
        reveal_strlit("8");
        reveal_strlit("9");
    }
    let r = if d == 0 {
        "0"
    } else if d == 1 {
        "1"
    } else if d == 2 {
        "2"
    } else if d == 3 {
        "3"
    } else if d == 4 {
        "4"
    } else if d == 5 {
        "5"
    } else if d == 6 {
        "6"
    } else if d == 7 {
        "7"
    } else if d == 8 {
        "8"
    } else {
        "9"
    };
    assert(r@ =~= seq![digit(d as int)]);
    r
}

fn push_digits(out: &mut String, n: u32)
    ensures
        final(out)@ == old(out)@ + digits(n as nat),
    decreases n,
{
    if n >= 10 {
        push_digits(out, n / 10);
    }
    out.append(digit_str(n % 10));
    assert(out@ =~= old(out)@ + digits(n as nat));
}

/// Appends `n` in decimal.
pub fn push_decimal(out: &mut String, n: i32)
    ensures
        final(out)@ == old(out)@ + decimal(n as int),
{
    if n < 0 {
        proof {
            reveal_strlit("-");
        }
        out.append("-");
        let m: u32 = (0 - (n as i64)) as u32;
        push_digits(out, m);
        assert(out@ =~= old(out)@ + decimal(n as int));
    } else {
        push_digits(out, n as u32);
    }
}

/// `<str as Debug>::fmt`, through `format!`: the string between double
/// quotes with its special characters escaped. The result depends on the
/// characters alone and is given the name [`debug_text`].
#[verifier::external_body]
fn quoted(s: &String) -> (r: String)
    ensures
        r@ == debug_text(s@),
{
    format!("{:?}", s)
}

fn push_line(out: &mut String, label: &str, value: &str)
    ensures
        final(out)@ == with_line(old(out)@, label@, value@),
{
    out.append(label);
    out.append(value);
    out.append("\n");
}

fn push_pair_line(out: &mut String, first: &str, a: i32, second: &str, b: i32, end: &str)
    ensures
        final(out)@ == with_pair_line(old(out)@, first@, a, second@, b, end@),
{
    out.append(first);
    push_decimal(out, a);
    out.append(second);
    push_decimal(out, b);
    out.append(end);
}

impl DisplayOutput {
    /// The output as it is printed.
    pub fn to_text(&self) -> (r: String)
        ensures
            r@ == rendered(self@),
    {
        let mut out = self.model.clone();
        out.append("\n");
        match &self.name {
            Some(name) => push_line(&mut out, "\tname: ", name.as_str()),
            None => {},
        }
        match &self.description {
            Some(description) => push_line(&mut out, "\tdescription: ", description.as_str()),
            None => {},
        }
        push_line(&mut out, "\tmake: ", self.make.as_str());
        push_pair_line(&mut out, "\tx: ", self.location.0, ", y: ", self.location.1, "\n");
        let subpixel = quoted(&self.subpixel);
        push_line(&mut out, "\tsubpixel: ", subpixel.as_str());
        push_pair_line(
            &mut out,
            "\tphysical_size: ",
            self.physical_size.0,
            "×",
            self.physical_size.1,
            "mm\n",
        );
        match self.logical_position {
            Some((x, y)) => push_pair_line(&mut out, "\tlogical x: ", x, ", y: ", y, "\n"),
            None => {},
        }
        match self.logical_size {
            Some((width, height)) => push_pair_line(
                &mut out,
                "\tlogical width: ",
                width,
                ", height: ",
                height,
                "\n",
            ),
            None => {},
        }
        out.append("\tmodes:\n");
        let ghost head = out@;
        let ghost lines = texts(self.modes@);
        let mut i: usize = 0;
        assert(lines.take(0) =~= Seq::empty());
        while i < self.modes.len()
            invariant
                i <= self.modes@.len(),
                lines == texts(self.modes@),
                out@ == with_mode_lines(head, lines.take(i as int)),
            decreases self.modes@.len() - i,
        {
            assert(lines.take(i + 1).drop_last() =~= lines.take(i as int));
            assert(lines.take(i + 1).last() == self.modes@[i as int]@);
            out.append("\t\t");
            out.append(self.modes[i].as_str());
            out.append("\n");
            i = i + 1;
        }
        assert(lines.take(i as int) =~= lines);
        out
    }
}

} // verus!
