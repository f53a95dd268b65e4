//! The grammar of an ingredient line.
//!
//! A line names an ingredient and may go on with a comment in parentheses, a
//! question mark for an ingredient that can be left out, and a quantity: one
//! number or two with a hyphen between them, and a unit.
//!
//! ```text
//! line     = spaces name tail spaces
//! tail     = spaces [ "(" spaces comment spaces ")" ] rest
//! rest     = spaces [ "?" ] spaces [ quantity ]
//! quantity = number [ spaces "-" spaces number ] spaces [ unit ]
//! number   = digit+ [ "." digit+ ]
//! unit     = ( punctuation | letter ) any*
//! ```
//!
//! Where a line can be read in more than one way, the name is as short as it
//! can be; after that a part that may be left out is taken where the line can
//! still be read to its end, a number is as long as it can be, and a comment
//! and a unit are as short as they can be.

use vstd::prelude::*;

verus! {

/// Whether a character is white space.
pub open spec fn is_space(c: char) -> bool {
    let n = c as u32;
    (0x09 <= n <= 0x0d) || n == 0x20 || n == 0x85 || n == 0xa0 || n == 0x1680 || (0x2000 <= n
        <= 0x200a) || n == 0x2028 || n == 0x2029 || n == 0x202f || n == 0x205f || n == 0x3000
}

/// Whether a character is one of the digits 0 to 9.
pub open spec fn is_digit(c: char) -> bool {
    0x30 <= c as u32 <= 0x39
}

/// Whether a unit can start with a character: an ASCII letter or an ASCII
/// punctuation mark.
pub open spec fn is_unit_start(c: char) -> bool {
    0x21 <= c as u32 <= 0x7e && !is_digit(c)
}

/// The first place from `i` on that holds no white space.
pub open spec fn skip_spaces(t: Seq<char>, i: int) -> int
    decreases t.len() - i,
{
    if 0 <= i < t.len() && is_space(t[i]) {
        skip_spaces(t, i + 1)
    } else {
        i
    }
}

/// The first place from `i` on that holds no digit.
pub open spec fn skip_digits(t: Seq<char>, i: int) -> int
    decreases t.len() - i,
{
    if 0 <= i < t.len() && is_digit(t[i]) {
        skip_digits(t, i + 1)
    } else {
        i
    }
}

/// The place before `e` where the white space that ends there begins.
pub open spec fn trim_end(t: Seq<char>, e: int) -> int
    decreases e,
{
    if 0 < e <= t.len() && is_space(t[e - 1]) {
        trim_end(t, e - 1)
    } else {
        e
    }
}

/// Where the longest number that starts at `p` ends: its digits, and a point
/// with the digits behind it where there are any.
pub open spec fn number_end(t: Seq<char>, p: int) -> int {
    let whole = skip_digits(t, p);
    if whole > p && whole + 1 < t.len() && t[whole] == '.' && is_digit(t[whole + 1]) {
        skip_digits(t, whole + 1)
    } else {
        whole
    }
}

/// A quantity as it is written.
pub enum QuantityText {
    ToTaste,
    Exact { number: Seq<char>, unit: Option<Seq<char>> },
    Range { low: Seq<char>, high: Seq<char>, unit: Option<Seq<char>> },
}

/// What follows the comment of a line.
pub struct RestText {
    pub optional: bool,
    pub quantity: QuantityText,
}

/// What follows the name of a line.
pub struct TailText {
    pub comment: Option<Seq<char>>,
    pub optional: bool,
    pub quantity: QuantityText,
}

/// The parts of a line.
pub struct LineText {
    pub name: Seq<char>,
    pub comment: Option<Seq<char>>,
    pub optional: bool,
    pub quantity: QuantityText,
}

/// How a line can end at `x`, where no white space stands: with nothing
/// (`Some(None)`), or with a unit that runs to the end of the line. `None`
/// where it cannot end there.
pub open spec fn closing(t: Seq<char>, x: int) -> Option<Option<Seq<char>>> {
    if x >= t.len() {
        Some(None)
    } else if is_unit_start(t[x]) {
        Some(Some(t.subrange(x, t.len() as int)))
    } else {
        None
    }
}

/// The quantity that starts with the digit at `p` and runs to the end of the
/// line; `None` where the line cannot be read so.
///
/// The numbers are taken as long as they can be. Where the line cannot end
/// behind them, what a shorter reading leaves over starts the unit: the
/// fraction of the last number, or else the hyphen and the second number.
pub open spec fn quantity_at(t: Seq<char>, p: int) -> Option<QuantityText> {
    let whole = skip_digits(t, p);
    let full = number_end(t, p);
    let hyphen = skip_spaces(t, full);
    let second = skip_spaces(t, hyphen + 1);
    if hyphen < t.len() && t[hyphen] == '-' && second < t.len() && is_digit(t[second]) {
        let whole2 = skip_digits(t, second);
        let full2 = number_end(t, second);
        match closing(t, skip_spaces(t, full2)) {
            Some(unit) => Some(
                QuantityText::Range {
                    low: t.subrange(p, full),
                    high: t.subrange(second, full2),
                    unit,
                },
            ),
            None => if full2 > whole2 {
                Some(
                    QuantityText::Range {
                        low: t.subrange(p, full),
                        high: t.subrange(second, whole2),
                        unit: Some(t.subrange(whole2, t.len() as int)),
                    },
                )
            } else {
                Some(
                    QuantityText::Exact {
                        number: t.subrange(p, full),
                        unit: Some(t.subrange(hyphen, t.len() as int)),
                    },
                )
            },
        }
    } else {
        match closing(t, hyphen) {
            Some(unit) => Some(QuantityText::Exact { number: t.subrange(p, full), unit }),
            None => if full > whole {
                Some(
                    QuantityText::Exact {
                        number: t.subrange(p, whole),
                        unit: Some(t.subrange(whole, t.len() as int)),
                    },
                )
            } else {
                None
            },
        }
    }
}

/// What follows the comment, from `j` to the end of the line: the question
/// mark, then the quantity. `None` where the line cannot be read so.
pub open spec fn rest_at(t: Seq<char>, j: int) -> Option<RestText> {
    let mark = skip_spaces(t, j);
    let optional = mark < t.len() && t[mark] == '?';
    let start = if optional {
        skip_spaces(t, mark + 1)
    } else {
        mark
    };
    if start >= t.len() {
        Some(RestText { optional, quantity: QuantityText::ToTaste })
    } else if is_digit(t[start]) {
        match quantity_at(t, start) {
            Some(quantity) => Some(RestText { optional, quantity }),
            None => None,
        }
    } else {
        None
    }
}

/// The first closing parenthesis from `j` on behind which the line can be
/// read to its end; the length of the line where there is none.
pub open spec fn closing_paren(t: Seq<char>, j: int) -> int
    decreases t.len() - j,
{
    if j >= t.len() || j < 0 {
        t.len() as int
    } else if t[j] == ')' && rest_at(t, j + 1) is Some {
        j
    } else {
        closing_paren(t, j + 1)
    }
}

/// A tail made of a comment and of what follows it.
pub open spec fn with_comment(comment: Option<Seq<char>>, rest: Option<RestText>) -> Option<
    TailText,
> {
    match rest {
        Some(rest) => Some(TailText { comment, optional: rest.optional, quantity: rest.quantity }),
        None => None,
    }
}

/// What follows the name, from `i` to the end of the line; `None` where the
/// line cannot be read so.
///
/// A comment ends at the first closing parenthesis behind which the line can
/// be read to its end, and holds what stands between the parentheses without
/// the white space around it. Where nothing but white space stands between
/// them, the comment is the last of that white space.
pub open spec fn tail_at(t: Seq<char>, i: int) -> Option<TailText> {
    let open = skip_spaces(t, i);
    if open < t.len() && t[open] == '(' {
        let inner = skip_spaces(t, open + 1);
        let close = closing_paren(t, inner + 1);
        if close < t.len() {
            with_comment(Some(t.subrange(inner, trim_end(t, close))), rest_at(t, close + 1))
        } else if open + 1 < inner < t.len() && t[inner] == ')' {
            with_comment(Some(t.subrange(inner - 1, inner)), rest_at(t, inner + 1))
        } else {
            None
        }
    } else {
        with_comment(None, rest_at(t, open))
    }
}

/// The first place from `i` on where a tail can start; the end of the line
/// where there is no other.
pub open spec fn first_tail(t: Seq<char>, i: int) -> int
    decreases t.len() - i,
{
    if i >= t.len() || i < 0 {
        t.len() as int
    } else if tail_at(t, i) is Some {
        i
    } else {
        first_tail(t, i + 1)
    }
}

/// A line without the white space around it.
pub open spec fn trimmed(s: Seq<char>) -> Seq<char> {
    let start = skip_spaces(s, 0);
    let end = trim_end(s, s.len() as int);
    if start < end {
        s.subrange(start, end)
    } else {
        Seq::empty()
    }
}

/// The parts of a line; `None` for a line that holds nothing but white
/// space.
pub open spec fn line_of(s: Seq<char>) -> Option<LineText> {
    let t = trimmed(s);
    if t.len() == 0 {
        None
    } else {
        let end = first_tail(t, 1);
        match tail_at(t, end) {
            Some(tail) => Some(
                LineText {
                    name: t.subrange(0, end),
                    comment: tail.comment,
                    optional: tail.optional,
                    quantity: tail.quantity,
                },
            ),
            None => None,
        }
    }
}

/// Skipping white space never goes back, nor beyond the line, and stops at
/// a character that is none.
pub proof fn lemma_skip_spaces_grows(t: Seq<char>, i: int)
    requires
        0 <= i <= t.len(),
    ensures
        i <= skip_spaces(t, i) <= t.len(),
        skip_spaces(t, i) < t.len() ==> !is_space(t[skip_spaces(t, i)]),
        forall|k: int| i <= k < skip_spaces(t, i) ==> is_space(#[trigger] t[k]),
    decreases t.len() - i,
{
    if i < t.len() && is_space(t[i]) {
        lemma_skip_spaces_grows(t, i + 1);
    }
}

/// Trimming stops behind a character that is no white space.
pub proof fn lemma_trim_end_stops(t: Seq<char>, e: int, keep: int)
    requires
        0 <= keep < e <= t.len(),
        !is_space(t[keep]),
    ensures
        keep < trim_end(t, e) <= e,
        !is_space(t[trim_end(t, e) - 1]),
    decreases e,
{
    if is_space(t[e - 1]) {
        lemma_trim_end_stops(t, e - 1, keep);
    }
}

/// Trimming never goes forward, nor before the line.
pub proof fn lemma_trim_end_bounds(t: Seq<char>, e: int)
    requires
        0 <= e <= t.len(),
    ensures
        0 <= trim_end(t, e) <= e,
    decreases e,
{
    if e > 0 && is_space(t[e - 1]) {
        lemma_trim_end_bounds(t, e - 1);
    }
}

/// Trimming a run of white space leaves nothing of it.
pub proof fn lemma_trim_end_blank(t: Seq<char>, e: int)
    requires
        0 <= e <= t.len(),
        forall|k: int| 0 <= k < e ==> is_space(#[trigger] t[k]),
    ensures
        trim_end(t, e) == 0,
    decreases e,
{
    if e > 0 {
        lemma_trim_end_blank(t, e - 1);
    }
}

/// The place that `first_tail` gives is the first from `i` on where a tail
/// can start.
pub proof fn lemma_first_tail(t: Seq<char>, i: int)
    requires
        0 <= i <= t.len(),
    ensures
        i <= first_tail(t, i) <= t.len(),
        tail_at(t, first_tail(t, i)) is Some,
        forall|k: int| i <= k < first_tail(t, i) ==> (#[trigger] tail_at(t, k)) is None,
    decreases t.len() - i,
{
    if i < t.len() && tail_at(t, i) is None {
        lemma_first_tail(t, i + 1);
    }
}

/// A line is read unless it holds nothing but white space.
pub proof fn blank_lines_have_no_name(s: Seq<char>)
    ensures
        line_of(s) is None <==> (forall|i: int| 0 <= i < s.len() ==> is_space(#[trigger] s[i])),
{
    lemma_skip_spaces_grows(s, 0);
    if forall|i: int| 0 <= i < s.len() ==> is_space(#[trigger] s[i]) {
        lemma_trim_end_blank(s, s.len() as int);
    } else {
        let k = choose|k: int| 0 <= k < s.len() && !is_space(#[trigger] s[k]);
        lemma_trim_end_stops(s, s.len() as int, k);
        lemma_first_tail(trimmed(s), 1);
    }
}

/// The name of a line that is read is not empty, and neither starts nor
/// ends with white space.
pub proof fn names_are_trimmed(s: Seq<char>)
    ensures
        line_of(s) matches Some(line) ==> line.name.len() > 0 && !is_space(line.name[0])
            && !is_space(line.name.last()),
{
    let t = trimmed(s);
    if t.len() > 0 {
        lemma_skip_spaces_grows(s, 0);
        lemma_trim_end_bounds(s, s.len() as int);
        lemma_first_tail(t, 1);
        let end = first_tail(t, 1);
        if end >= 2 && is_space(t[end - 1]) {
            assert(tail_at(t, end - 1) is None);
        }
    }
}

} // verus!
