use vstd::prelude::*;

use crate::text::{append_chars, chars_of, string_of};

verus! {

/// A grid puzzle example: input rows and output rows of small numbers.
pub struct InputOutputPair {
    pub input: Vec<Vec<u8>>,
    pub output: Vec<Vec<u8>>,
}

/// Examples to test on and to learn from.
pub struct TrainingData {
    pub test: Vec<InputOutputPair>,
    pub train: Vec<InputOutputPair>,
}

/// The decimal digits of `n`.
pub open spec fn decimal(n: nat) -> Seq<char>
    decreases n,
{
    if n < 10 {
        seq![digit(n)]
    } else {
        decimal(n / 10).push(digit(n % 10))
    }
}

/// The character of the decimal digit `d`.
pub open spec fn digit(d: nat) -> char {
    ((d + 48) as u8) as char
}

/// The decimal digits of `n`.
pub fn decimal_usize(n: usize) -> (r: Vec<char>)
    ensures
        r@ == decimal(n as nat),
    decreases n,
{
    if n < 10 {
        let mut r: Vec<char> = Vec::new();
        r.push(((n as u8) + 48) as char);
        assert(r@ =~= decimal(n as nat));
        r
    } else {
        let mut r = decimal_usize(n / 10);
        r.push((((n % 10) as u8) + 48) as char);
        assert(r@ =~= decimal(n as nat));
        r
    }
}

fn decimal_exec(n: u8) -> (r: Vec<char>)
    ensures
        r@ == decimal(n as nat),
{
    let mut r: Vec<char> = Vec::new();
    if n >= 100 {
        r.push(((n / 100) + 48) as char);
    }
    if n >= 10 {
        r.push((((n / 10) % 10) + 48) as char);
    }
    r.push(((n % 10) + 48) as char);
    proof {
        let m = n as nat;
        if m >= 100 {
            assert(decimal(m) == decimal(m / 10).push(digit(m % 10)));
            assert(decimal(m / 10) == decimal(m / 100).push(digit((m / 10) % 10)));
            assert(decimal(m / 100) == seq![digit(m / 100)]);
        } else if m >= 10 {
            assert(decimal(m) == decimal(m / 10).push(digit(m % 10)));
            assert(decimal(m / 10) == seq![digit(m / 10)]);
        }
    }
    assert(r@ =~= decimal(n as nat));
    r
}

/// The numbers of a row, in decimal, separated by `, `.
pub open spec fn row_text(row: Seq<u8>) -> Seq<char>
    decreases row.len(),
{
    if row.len() == 0 {
        Seq::empty()
    } else if row.len() == 1 {
        decimal(row[0] as nat)
    } else {
        row_text(row.drop_last()) + ", "@ + decimal(row.last() as nat)
    }
}

/// The rows, separated by line feeds.
pub open spec fn grid_text(rows: Seq<Vec<u8>>) -> Seq<char>
    decreases rows.len(),
{
    if rows.len() == 0 {
        Seq::empty()
    } else if rows.len() == 1 {
        row_text(rows[0]@)
    } else {
        grid_text(rows.drop_last()) + "\n"@ + row_text(rows.last()@)
    }
}

fn row_text_exec(row: &Vec<u8>) -> (r: Vec<char>)
    ensures
        r@ == row_text(row@),
{
    let mut out: Vec<char> = Vec::new();
    let mut i: usize = 0;
    while i < row.len()
        invariant
            i <= row@.len(),
            out@ == row_text(row@.subrange(0, i as int)),
        decreases row@.len() - i,
    {
        let ghost before = out@;
        if i > 0 {
            append_chars(&mut out, chars_of(", ").as_slice());
        }
        append_chars(&mut out, decimal_exec(row[i]).as_slice());
        assert(row@.subrange(0, i + 1).drop_last() == row@.subrange(0, i as int));
        assert(row@.subrange(0, i + 1)[0] == row@[0]);
        assert(out@ =~= row_text(row@.subrange(0, i + 1)));
        i += 1;
    }
    assert(row@.subrange(0, row@.len() as int) == row@);
    out
}

fn grid_text_exec(rows: &Vec<Vec<u8>>) -> (r: Vec<char>)
    ensures
        r@ == grid_text(rows@),
{
    let mut out: Vec<char> = Vec::new();
    let mut i: usize = 0;
    while i < rows.len()
        invariant
            i <= rows@.len(),
            out@ == grid_text(rows@.subrange(0, i as int)),
        decreases rows@.len() - i,
    {
        if i > 0 {
            append_chars(&mut out, chars_of("\n").as_slice());
        }
        append_chars(&mut out, row_text_exec(&rows[i]).as_slice());
        assert(rows@.subrange(0, i + 1).drop_last() == rows@.subrange(0, i as int));
        assert(rows@.subrange(0, i + 1)[0] == rows@[0]);
        assert(out@ =~= grid_text(rows@.subrange(0, i + 1)));
        i += 1;
    }
    assert(rows@.subrange(0, rows@.len() as int) == rows@);
    out
}

/// `label` followed by the grid in a fenced block.
pub open spec fn fenced(label: Seq<char>, rows: Seq<Vec<u8>>) -> Seq<char> {
    label + "\n```\n"@ + grid_text(rows) + "\n```\n\n"@
}

fn fenced_exec(label: &str, rows: &Vec<Vec<u8>>) -> (r: String)
    ensures
        r@ == fenced(label@, rows@),
{
    let mut out = chars_of(label);
    append_chars(&mut out, chars_of("\n```\n").as_slice());
    append_chars(&mut out, grid_text_exec(rows).as_slice());
    append_chars(&mut out, chars_of("\n```\n\n").as_slice());
    assert(out@ =~= fenced(label@, rows@));
    string_of(out.as_slice())
}

impl InputOutputPair {
    /// The input grid, then the output grid, each in a fenced block.
    pub fn describe(&self) -> (r: String)
        ensures
            r@ == fenced("The input looks like this:"@, self.input@) + fenced(
                "The output looks like this:"@,
                self.output@,
            ),
    {
        let mut out = chars_of(self.describe_input().as_str());
        append_chars(&mut out, chars_of(self.describe_output().as_str()).as_slice());
        string_of(out.as_slice())
    }

    /// The input grid in a fenced block.
    pub fn describe_input(&self) -> (r: String)
        ensures
            r@ == fenced("The input looks like this:"@, self.input@),
    {
        fenced_exec("The input looks like this:", &self.input)
    }

    /// The output grid in a fenced block.
    pub fn describe_output(&self) -> (r: String)
        ensures
            r@ == fenced("The output looks like this:"@, self.output@),
    {
        fenced_exec("The output looks like this:", &self.output)
    }
}

} // verus!
