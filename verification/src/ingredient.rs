//! Ingredients, read from one line of text.

use vstd::prelude::*;
use vstd::string::{StrSliceExecFns, StringExecFns};
use crate::error::StructuralError;
use crate::grammar::{LineText, QuantityText, RestText, TailText};
use crate::parsers::{Markdown, Modeled};
use crate::tree::DocView;

verus! {

/// Whether a character is white space.
pub fn is_space_char(c: char) -> (r: bool)
    ensures
        r == crate::grammar::is_space(c),
{
    let n: u32 = c as u32;
    (0x09 <= n && n <= 0x0d) || n == 0x20 || n == 0x85 || n == 0xa0 || n == 0x1680 || (0x2000 <= n
        && n <= 0x200a) || n == 0x2028 || n == 0x2029 || n == 0x202f || n == 0x205f || n == 0x3000
}

/// Whether a character is one of the digits 0 to 9.
pub fn is_digit_char(c: char) -> (r: bool)
    ensures
        r == crate::grammar::is_digit(c),
{
    let n: u32 = c as u32;
    0x30 <= n && n <= 0x39
}

/// Whether a unit can start with a character.
pub fn is_unit_start_char(c: char) -> (r: bool)
    ensures
        r == crate::grammar::is_unit_start(c),
{
    let n: u32 = c as u32;
    0x21 <= n && n <= 0x7e && !(0x30 <= n && n <= 0x39)
}

/// The characters of a text, in order.
pub fn chars_of(s: &str) -> (r: Vec<char>)
    ensures
        r@ == s@,
{
    let n = s.unicode_len();
    let mut out: Vec<char> = Vec::new();
    let mut i: usize = 0;
    while i < n
        invariant
            n == s@.len(),
            i <= n,
            out@ == s@.take(i as int),
        decreases n - i,
    {
        out.push(s.get_char(i));
        i += 1;
    }
    out
}

/// A stretch of a line, from `from` up to `to`.
#[derive(Debug, PartialEq, Eq, Clone, Copy)]
pub struct Span {
    pub from: usize,
    pub to: usize,
}

/// Where the parts of a quantity stand in a line.
#[derive(Debug, PartialEq, Eq, Clone, Copy)]
pub enum Amount {
    ToTaste,
    Exact { number: Span, unit: Option<Span> },
    Range { low: Span, high: Span, unit: Option<Span> },
}

/// Where what follows a comment stands in a line.
#[derive(Debug, PartialEq, Eq, Clone, Copy)]
pub struct Rest {
    pub optional: bool,
    pub amount: Amount,
}

/// Where what follows a name stands in a line.
#[derive(Debug, PartialEq, Eq, Clone, Copy)]
pub struct Tail {
    pub comment: Option<Span>,
    pub optional: bool,
    pub amount: Amount,
}

impl Span {
    /// Whether the stretch lies within a line.
    pub open spec fn within(self, t: Seq<char>) -> bool {
        self.from <= self.to <= t.len()
    }

    /// What the stretch holds.
    pub open spec fn cut(self, t: Seq<char>) -> Seq<char> {
        t.subrange(self.from as int, self.to as int)
    }
}

/// Whether a stretch that may be missing lies within a line.
pub open spec fn within_opt(span: Option<Span>, t: Seq<char>) -> bool {
    span matches Some(span) ==> span.within(t)
}

/// What a stretch that may be missing holds.
pub open spec fn cut_opt(span: Option<Span>, t: Seq<char>) -> Option<Seq<char>> {
    match span {
        Some(span) => Some(span.cut(t)),
        None => None,
    }
}

impl Amount {
    pub open spec fn within(self, t: Seq<char>) -> bool {
        match self {
            Amount::ToTaste => true,
            Amount::Exact { number, unit } => number.within(t) && within_opt(unit, t),
            Amount::Range { low, high, unit } => low.within(t) && high.within(t) && within_opt(
                unit,
                t,
            ),
        }
    }

    pub open spec fn cut(self, t: Seq<char>) -> QuantityText {
        match self {
            Amount::ToTaste => QuantityText::ToTaste,
            Amount::Exact { number, unit } => QuantityText::Exact {
                number: number.cut(t),
                unit: cut_opt(unit, t),
            },
            Amount::Range { low, high, unit } => QuantityText::Range {
                low: low.cut(t),
                high: high.cut(t),
                unit: cut_opt(unit, t),
            },
        }
    }
}

impl Rest {
    pub open spec fn within(self, t: Seq<char>) -> bool {
        self.amount.within(t)
    }

    pub open spec fn cut(self, t: Seq<char>) -> RestText {
        RestText { optional: self.optional, quantity: self.amount.cut(t) }
    }
}

impl Tail {
    pub open spec fn within(self, t: Seq<char>) -> bool {
        within_opt(self.comment, t) && self.amount.within(t)
    }

    pub open spec fn cut(self, t: Seq<char>) -> TailText {
        TailText {
            comment: cut_opt(self.comment, t),
            optional: self.optional,
            quantity: self.amount.cut(t),
        }
    }
}

/// The first place from `i` on that holds no white space.
pub(crate) fn skip_spaces_in(t: &Vec<char>, i: usize) -> (r: usize)
    requires
        i <= t.len(),
    ensures
        r == crate::grammar::skip_spaces(t@, i as int),
        i <= r <= t.len(),
        r < t.len() ==> !crate::grammar::is_space(t@[r as int]),
{
    let mut k: usize = i;
    while k < t.len() && is_space_char(t[k])
        invariant
            i <= k <= t.len(),
            crate::grammar::skip_spaces(t@, i as int) == crate::grammar::skip_spaces(t@, k as int),
        decreases t.len() - k,
    {
        k += 1;
    }
    k
}

/// The first place from `i` on that holds no digit.
pub(crate) fn skip_digits_in(t: &Vec<char>, i: usize) -> (r: usize)
    requires
        i <= t.len(),
    ensures
        r == crate::grammar::skip_digits(t@, i as int),
        i <= r <= t.len(),
        r < t.len() ==> !crate::grammar::is_digit(t@[r as int]),
{
    let mut k: usize = i;
    while k < t.len() && is_digit_char(t[k])
        invariant
            i <= k <= t.len(),
            crate::grammar::skip_digits(t@, i as int) == crate::grammar::skip_digits(t@, k as int),
        decreases t.len() - k,
    {
        k += 1;
    }
    k
}

/// The place before `e` where the white space that ends there begins.
pub(crate) fn trim_end_in(t: &Vec<char>, e: usize) -> (r: usize)
    requires
        e <= t.len(),
    ensures
        r == crate::grammar::trim_end(t@, e as int),
        r <= e,
{
    let mut k: usize = e;
    while k > 0 && is_space_char(t[k - 1])
        invariant
            k <= e <= t.len(),
            crate::grammar::trim_end(t@, e as int) == crate::grammar::trim_end(t@, k as int),
        decreases k,
    {
        k -= 1;
    }
    k
}

/// Where the longest number that starts at `p` ends.
pub(crate) fn number_end_in(t: &Vec<char>, p: usize) -> (r: usize)
    requires
        p <= t.len(),
    ensures
        r == crate::grammar::number_end(t@, p as int),
        crate::grammar::skip_digits(t@, p as int) <= r <= t.len(),
{
    let whole = skip_digits_in(t, p);
    if whole > p && whole < t.len() && t.len() - whole > 1 && t[whole] == '.' && is_digit_char(
        t[whole + 1],
    ) {
        skip_digits_in(t, whole + 1)
    } else {
        whole
    }
}

/// How a line can end at `x`.
pub(crate) fn closing_in(t: &Vec<char>, x: usize) -> (r: Option<Option<Span>>)
    requires
        x <= t.len(),
    ensures
        match r {
            Some(unit) => within_opt(unit, t@) && crate::grammar::closing(t@, x as int) == Some(
                cut_opt(unit, t@),
            ),
            None => crate::grammar::closing(t@, x as int) is None,
        },
{
    if x >= t.len() {
        Some(None)
    } else if is_unit_start_char(t[x]) {
        Some(Some(Span { from: x, to: t.len() }))
    } else {
        None
    }
}

/// The quantity that starts at `p` and runs to the end of the line.
pub(crate) fn quantity_in(t: &Vec<char>, p: usize) -> (r: Option<Amount>)
    requires
        p <= t.len(),
    ensures
        match r {
            Some(amount) => amount.within(t@) && crate::grammar::quantity_at(t@, p as int) == Some(
                amount.cut(t@),
            ),
            None => crate::grammar::quantity_at(t@, p as int) is None,
        },
{
    let len = t.len();
    let whole = skip_digits_in(t, p);
    let full = number_end_in(t, p);
    let hyphen = skip_spaces_in(t, full);
    if hyphen < len && t[hyphen] == '-' {
        let second = skip_spaces_in(t, hyphen + 1);
        if second < len && is_digit_char(t[second]) {
            let whole2 = skip_digits_in(t, second);
            let full2 = number_end_in(t, second);
            let low = Span { from: p, to: full };
            return match closing_in(t, skip_spaces_in(t, full2)) {
                Some(unit) => Some(
                    Amount::Range { low, high: Span { from: second, to: full2 }, unit },
                ),
                None => if full2 > whole2 {
                    Some(
                        Amount::Range {
                            low,
                            high: Span { from: second, to: whole2 },
                            unit: Some(Span { from: whole2, to: len }),
                        },
                    )
                } else {
                    Some(Amount::Exact { number: low, unit: Some(Span { from: hyphen, to: len }) })
                },
            };
        }
    }
    match closing_in(t, hyphen) {
        Some(unit) => Some(Amount::Exact { number: Span { from: p, to: full }, unit }),
        None => if full > whole {
            Some(
                Amount::Exact {
                    number: Span { from: p, to: whole },
                    unit: Some(Span { from: whole, to: len }),
                },
            )
        } else {
            None
        },
    }
}

/// What follows the comment, from `j` to the end of the line.
pub(crate) fn rest_in(t: &Vec<char>, j: usize) -> (r: Option<Rest>)
    requires
        j <= t.len(),
    ensures
        match r {
            Some(rest) => rest.within(t@) && crate::grammar::rest_at(t@, j as int) == Some(
                rest.cut(t@),
            ),
            None => crate::grammar::rest_at(t@, j as int) is None,
        },
{
    let mark = skip_spaces_in(t, j);
    let optional = mark < t.len() && t[mark] == '?';
    let start = if optional {
        skip_spaces_in(t, mark + 1)
    } else {
        mark
    };
    if start >= t.len() {
        Some(Rest { optional, amount: Amount::ToTaste })
    } else if is_digit_char(t[start]) {
        match quantity_in(t, start) {
            Some(amount) => Some(Rest { optional, amount }),
            None => None,
        }
    } else {
        None
    }
}

/// The first closing parenthesis from `j` on behind which the line can be
/// read to its end, with what follows it there.
pub(crate) fn closing_paren_in(t: &Vec<char>, j: usize) -> (r: Option<(usize, Rest)>)
    requires
        j <= t.len(),
    ensures
        match r {
            Some((close, rest)) => j <= close < t.len() && close == crate::grammar::closing_paren(
                t@,
                j as int,
            ) && rest.within(t@) && crate::grammar::rest_at(t@, close + 1) == Some(rest.cut(t@)),
            None => crate::grammar::closing_paren(t@, j as int) == t.len(),
        },
{
    let mut k: usize = j;
    while k < t.len()
        invariant
            j <= k <= t.len(),
            crate::grammar::closing_paren(t@, j as int) == crate::grammar::closing_paren(
                t@,
                k as int,
            ),
        decreases t.len() - k,
    {
        if t[k] == ')' {
            match rest_in(t, k + 1) {
                Some(rest) => {
                    return Some((k, rest));
                },
                None => {},
            }
        }
        k += 1;
    }
    None
}

/// A tail made of a comment and of what follows it.
pub(crate) fn tail_of(comment: Option<Span>, rest: Rest) -> (r: Tail)
    ensures
        r == (Tail { comment, optional: rest.optional, amount: rest.amount }),
{
    Tail { comment, optional: rest.optional, amount: rest.amount }
}

/// What follows the name, from `i` to the end of the line.
pub(crate) fn tail_in(t: &Vec<char>, i: usize) -> (r: Option<Tail>)
    requires
        i <= t.len(),
    ensures
        match r {
            Some(tail) => tail.within(t@) && crate::grammar::tail_at(t@, i as int) == Some(
                tail.cut(t@),
            ),
            None => crate::grammar::tail_at(t@, i as int) is None,
        },
{
    let len = t.len();
    let open = skip_spaces_in(t, i);
    if open < len && t[open] == '(' {
        let inner = skip_spaces_in(t, open + 1);
        let found = if inner < len {
            closing_paren_in(t, inner + 1)
        } else {
            None
        };
        match found {
            Some((close, rest)) => {
                let end = trim_end_in(t, close);
                proof {
                    crate::grammar::lemma_trim_end_stops(t@, close as int, inner as int);
                }
                Some(tail_of(Some(Span { from: inner, to: end }), rest))
            },
            None => {
                if open + 1 < inner && inner < len && t[inner] == ')' {
                    match rest_in(t, inner + 1) {
                        Some(rest) => Some(
                            tail_of(Some(Span { from: inner - 1, to: inner }), rest),
                        ),
                        None => None,
                    }
                } else {
                    None
                }
            },
        }
    } else {
        match rest_in(t, open) {
            Some(rest) => Some(tail_of(None, rest)),
            None => None,
        }
    }
}

/// A line can always end where it ends: nothing follows the name there.
pub proof fn lemma_tail_at_end(t: Seq<char>)
    ensures
        crate::grammar::tail_at(t, t.len() as int) == Some(
            TailText { comment: None, optional: false, quantity: QuantityText::ToTaste },
        ),
{
}

/// Where the name of a line ends, and what follows it.
pub(crate) fn name_end_in(t: &Vec<char>) -> (r: (usize, Tail))
    requires
        t.len() >= 1,
    ensures
        r.0 == crate::grammar::first_tail(t@, 1),
        1 <= r.0 <= t.len(),
        r.1.within(t@),
        crate::grammar::tail_at(t@, r.0 as int) == Some(r.1.cut(t@)),
{
    let mut i: usize = 1;
    while i < t.len()
        invariant
            1 <= i <= t.len(),
            crate::grammar::first_tail(t@, 1) == crate::grammar::first_tail(t@, i as int),
        decreases t.len() - i,
    {
        match tail_in(t, i) {
            Some(tail) => {
                return (i, tail);
            },
            None => {},
        }
        i += 1;
    }
    proof {
        lemma_tail_at_end(t@);
    }
    (i, Tail { comment: None, optional: false, amount: Amount::ToTaste })
}

/// The text of a stretch of a line.
pub(crate) fn text_in(line: &str, span: Span) -> (r: String)
    requires
        span.within(line@),
    ensures
        r@ == span.cut(line@),
{
    String::from_str(line.substring_char(span.from, span.to))
}

/// The text of a stretch of a line that may be missing.
pub(crate) fn text_in_opt(line: &str, span: Option<Span>) -> (r: Option<String>)
    requires
        within_opt(span, line@),
    ensures
        view_opt(r) == cut_opt(span, line@),
{
    match span {
        Some(span) => Some(text_in(line, span)),
        None => None,
    }
}

/// The value of a text that may be missing.
pub open spec fn view_opt(text: Option<String>) -> Option<Seq<char>> {
    match text {
        Some(text) => Some(text@),
        None => None,
    }
}

/// Whether a text is a number as the grammar writes it: digits, and a point
/// with digits behind it where there is a fraction.
pub open spec fn is_number(s: Seq<char>) -> bool {
    s.len() > 0 && crate::grammar::is_digit(s[0]) && crate::grammar::number_end(s, 0) == s.len()
}

/// A number, kept as the digits it was written with.
#[derive(Debug, PartialEq, Eq)]
pub struct Decimal {
    text: String,
}

impl View for Decimal {
    type V = Seq<char>;

    closed spec fn view(&self) -> Seq<char> {
        self.text@
    }
}

impl Decimal {
    #[verifier::type_invariant]
    spec fn well_formed(self) -> bool {
        is_number(self.text@)
    }

    /// Reads a number; `None` for a text that is none.
    pub fn parse(text: &str) -> (r: Option<Decimal>)
        ensures
            is_number(text@) ==> (r matches Some(number) && number@ == text@),
            !is_number(text@) ==> r is None,
    {
        let chars = chars_of(text);
        if chars.len() > 0 && is_digit_char(chars[0]) && number_end_in(&chars, 0) == chars.len() {
            Some(Decimal { text: String::from_str(text) })
        } else {
            None
        }
    }

    /// The digits of the number, which are a number as the grammar writes it.
    pub fn as_str(&self) -> (r: &str)
        ensures
            r@ == self@,
            is_number(r@),
    {
        proof {
            use_type_invariant(self);
        }
        self.text.as_str()
    }

    /// The number that a stretch of a line holds.
    fn in_line(line: &str, span: Span) -> (r: Decimal)
        requires
            span.within(line@),
            is_number(span.cut(line@)),
        ensures
            r@ == span.cut(line@),
    {
        Decimal { text: text_in(line, span) }
    }
}

/// How much of an ingredient a recipe takes.
#[derive(Debug, PartialEq, Eq)]
pub enum Quantity {
    /// As much as tastes right.
    ToTaste,
    /// A given amount, with its unit where it has one.
    Exact { n: Decimal, unit: Option<String> },
    /// An amount between two bounds, which are kept in the order in which
    /// they were written.
    Range { range: (Decimal, Decimal), unit: Option<String> },
}

impl View for Quantity {
    type V = QuantityText;

    open spec fn view(&self) -> QuantityText {
        match self {
            Quantity::ToTaste => QuantityText::ToTaste,
            Quantity::Exact { n, unit } => QuantityText::Exact {
                number: n@,
                unit: view_opt(*unit),
            },
            Quantity::Range { range, unit } => QuantityText::Range {
                low: range.0@,
                high: range.1@,
                unit: view_opt(*unit),
            },
        }
    }
}

impl Default for Quantity {
    fn default() -> (r: Quantity)
        ensures
            r@ == QuantityText::ToTaste,
    {
        Quantity::ToTaste
    }
}

impl Quantity {
    /// Whether the quantity is left to taste.
    #[must_use]
    pub fn is_to_taste(&self) -> (r: bool)
        ensures
            r == (self@ is ToTaste),
    {
        match self {
            Quantity::ToTaste => true,
            _ => false,
        }
    }
}

/// Whether the numbers of a quantity are numbers as the grammar writes them.
pub open spec fn numbers_in(quantity: QuantityText) -> bool {
    match quantity {
        QuantityText::ToTaste => true,
        QuantityText::Exact { number, .. } => is_number(number),
        QuantityText::Range { low, high, .. } => is_number(low) && is_number(high),
    }
}

/// The smaller of two places.
pub open spec fn at_most(place: int, bound: int) -> int {
    if place < bound {
        place
    } else {
        bound
    }
}

/// The digits of a stretch counted from its own start are those of the line,
/// as far as the stretch goes.
pub proof fn lemma_skip_digits_within(t: Seq<char>, from: int, to: int, i: int)
    requires
        0 <= from <= i <= to <= t.len(),
    ensures
        crate::grammar::skip_digits(t.subrange(from, to), i - from) == at_most(
            crate::grammar::skip_digits(t, i),
            to,
        ) - from,
    decreases to - i,
{
    if i < to && crate::grammar::is_digit(t[i]) {
        lemma_skip_digits_within(t, from, to, i + 1);
    }
    lemma_skip_digits_grows(t, i);
}

/// Skipping digits never goes back, nor beyond the line.
pub proof fn lemma_skip_digits_grows(t: Seq<char>, i: int)
    requires
        0 <= i <= t.len(),
    ensures
        i <= crate::grammar::skip_digits(t, i) <= t.len(),
    decreases t.len() - i,
{
    if i < t.len() && crate::grammar::is_digit(t[i]) {
        lemma_skip_digits_grows(t, i + 1);
    }
}

/// What the grammar takes for a number is one, with its fraction and
/// without it.
pub proof fn lemma_numbers_are_numbers(t: Seq<char>, p: int)
    requires
        0 <= p < t.len(),
        crate::grammar::is_digit(t[p]),
    ensures
        is_number(t.subrange(p, crate::grammar::number_end(t, p))),
        is_number(t.subrange(p, crate::grammar::skip_digits(t, p))),
        p < crate::grammar::skip_digits(t, p) <= crate::grammar::number_end(t, p) <= t.len(),
{
    let whole = crate::grammar::skip_digits(t, p);
    let full = crate::grammar::number_end(t, p);
    lemma_skip_digits_grows(t, p + 1);
    lemma_skip_digits_grows(t, p);
    lemma_skip_digits_within(t, p, whole, p);
    if whole + 1 < t.len() && t[whole] == '.' && crate::grammar::is_digit(t[whole + 1]) {
        lemma_skip_digits_grows(t, whole + 1);
        lemma_skip_digits_grows(t, whole + 2);
        lemma_skip_digits_within(t, p, full, p);
        lemma_skip_digits_within(t, p, full, whole + 1);
    }
}

/// The numbers of a quantity that the grammar reads are numbers.
pub proof fn lemma_quantity_numbers(t: Seq<char>, p: int)
    requires
        0 <= p < t.len(),
        crate::grammar::is_digit(t[p]),
    ensures
        crate::grammar::quantity_at(t, p) matches Some(quantity) ==> numbers_in(quantity),
{
    lemma_numbers_are_numbers(t, p);
    let full = crate::grammar::number_end(t, p);
    let hyphen = crate::grammar::skip_spaces(t, full);
    let second = crate::grammar::skip_spaces(t, hyphen + 1);
    if hyphen < t.len() && second < t.len() && 0 <= second && crate::grammar::is_digit(t[second]) {
        lemma_numbers_are_numbers(t, second);
    }
}

/// The numbers of every line that the grammar reads are numbers.
pub proof fn lemma_tail_numbers(t: Seq<char>, i: int)
    requires
        0 <= i <= t.len(),
    ensures
        crate::grammar::tail_at(t, i) matches Some(tail) ==> numbers_in(tail.quantity),
{
    crate::grammar::lemma_skip_spaces_grows(t, i);
    let open = crate::grammar::skip_spaces(t, i);
    lemma_rest_numbers(t, open);
    if open < t.len() {
        crate::grammar::lemma_skip_spaces_grows(t, open + 1);
        let inner = crate::grammar::skip_spaces(t, open + 1);
        if inner < t.len() {
            lemma_rest_numbers(t, inner + 1);
            lemma_closing_paren_bounds(t, inner + 1);
            let close = crate::grammar::closing_paren(t, inner + 1);
            if close < t.len() {
                lemma_rest_numbers(t, close + 1);
            }
        }
    }
}

/// The numbers of what follows a comment are numbers.
pub proof fn lemma_rest_numbers(t: Seq<char>, j: int)
    requires
        0 <= j <= t.len(),
    ensures
        crate::grammar::rest_at(t, j) matches Some(rest) ==> numbers_in(rest.quantity),
{
    crate::grammar::lemma_skip_spaces_grows(t, j);
    let mark = crate::grammar::skip_spaces(t, j);
    if mark < t.len() {
        crate::grammar::lemma_skip_spaces_grows(t, mark + 1);
        let start = crate::grammar::skip_spaces(t, mark + 1);
        if start < t.len() && crate::grammar::is_digit(t[start]) {
            lemma_quantity_numbers(t, start);
        }
        if crate::grammar::is_digit(t[mark]) {
            lemma_quantity_numbers(t, mark);
        }
    }
}

/// A closing parenthesis is looked for from where the search starts to the
/// end of the line.
pub proof fn lemma_closing_paren_bounds(t: Seq<char>, j: int)
    requires
        0 <= j <= t.len(),
    ensures
        j <= crate::grammar::closing_paren(t, j) <= t.len(),
    decreases t.len() - j,
{
    if j < t.len() && !(t[j] == ')' && crate::grammar::rest_at(t, j + 1) is Some) {
        lemma_closing_paren_bounds(t, j + 1);
    }
}

/// The quantity that stands at the given places of a line.
pub(crate) fn quantity_in_line(line: &str, amount: Amount) -> (r: Quantity)
    requires
        amount.within(line@),
        numbers_in(amount.cut(line@)),
    ensures
        r@ == amount.cut(line@),
{
    match amount {
        Amount::ToTaste => Quantity::ToTaste,
        Amount::Exact { number, unit } => Quantity::Exact {
            n: Decimal::in_line(line, number),
            unit: text_in_opt(line, unit),
        },
        Amount::Range { low, high, unit } => Quantity::Range {
            range: (Decimal::in_line(line, low), Decimal::in_line(line, high)),
            unit: text_in_opt(line, unit),
        },
    }
}

/// The parts of an ingredient line, as they are written.
#[derive(Debug, PartialEq, Eq)]
pub struct IngredientLine {
    pub name: String,
    pub comment: Option<String>,
    pub optional: bool,
    pub quantity: Quantity,
}

impl View for IngredientLine {
    type V = LineText;

    open spec fn view(&self) -> LineText {
        LineText {
            name: self.name@,
            comment: view_opt(self.comment),
            optional: self.optional,
            quantity: self.quantity@,
        }
    }
}

/// Reads one ingredient line into its parts. A line that holds nothing but
/// white space has no name and is refused; every other line is read.
pub fn parse_line(s: &str) -> (r: Result<IngredientLine, StructuralError>)
    ensures
        match crate::grammar::line_of(s@) {
            Some(line) => r matches Ok(read) && read@ == line,
            None => r == Err::<IngredientLine, StructuralError>(
                StructuralError::EmptyIngredientName,
            ),
        },
{
    let all = chars_of(s);
    let start = skip_spaces_in(&all, 0);
    let end = trim_end_in(&all, all.len());
    if start >= end {
        return Err(StructuralError::EmptyIngredientName);
    }
    let body = s.substring_char(start, end);
    let t = chars_of(body);
    let (name_end, tail) = name_end_in(&t);
    proof {
        lemma_tail_numbers(t@, name_end as int);
    }
    let name = text_in(body, Span { from: 0, to: name_end });
    let comment = text_in_opt(body, tail.comment);
    let quantity = quantity_in_line(body, tail.amount);
    Ok(IngredientLine { name, comment, optional: tail.optional, quantity })
}

/// An ingredient of a recipe.
#[derive(Debug, PartialEq, Eq)]
pub struct Ingredient {
    name: Markdown,
    comment: Option<Markdown>,
    quantity: Quantity,
    optional: bool,
}

/// The mathematical value of an [`Ingredient`].
pub struct IngredientModel {
    pub name: DocView,
    pub comment: Option<DocView>,
    pub quantity: QuantityText,
    pub optional: bool,
}

impl Modeled for Ingredient {
    type Model = IngredientModel;

    closed spec fn model(&self) -> IngredientModel {
        IngredientModel {
            name: self.name.model(),
            comment: match self.comment {
                Some(comment) => Some(comment.model()),
                None => None,
            },
            quantity: self.quantity@,
            optional: self.optional,
        }
    }
}

/// The ingredient that the parts of a line stand for: name and comment are
/// read as markdown.
pub open spec fn ingredient_of(line: LineText) -> Result<IngredientModel, StructuralError> {
    match crate::tree::markdown_tree(line.name, false) {
        None => Err(StructuralError::Syntax),
        Some(name) => match line.comment {
            None => Ok(
                IngredientModel {
                    name,
                    comment: None,
                    quantity: line.quantity,
                    optional: line.optional,
                },
            ),
            Some(text) => match crate::tree::markdown_tree(text, false) {
                None => Err(StructuralError::Syntax),
                Some(comment) => Ok(
                    IngredientModel {
                        name,
                        comment: Some(comment),
                        quantity: line.quantity,
                        optional: line.optional,
                    },
                ),
            },
        },
    }
}

/// The ingredient that a line stands for.
pub open spec fn ingredient_in(s: Seq<char>) -> Result<IngredientModel, StructuralError> {
    match crate::grammar::line_of(s) {
        None => Err(StructuralError::EmptyIngredientName),
        Some(line) => ingredient_of(line),
    }
}

impl Ingredient {
    /// Puts an ingredient together from its parts.
    pub fn new(name: Markdown, comment: Option<Markdown>, quantity: Quantity, optional: bool) -> (r:
        Ingredient)
        ensures
            r.model() == (IngredientModel {
                name: name.model(),
                comment: match comment {
                    Some(comment) => Some(comment.model()),
                    None => None,
                },
                quantity: quantity@,
                optional,
            }),
    {
        Ingredient { name, comment, quantity, optional }
    }

    /// Makes an ingredient of the parts of a line.
    pub fn from_line(line: IngredientLine) -> (r: Result<Ingredient, StructuralError>)
        ensures
            crate::parsers::model_of(r) == ingredient_of(line@),
    {
        let name = match Markdown::from_str(line.name.as_str()) {
            Ok(name) => name,
            Err(e) => {
                return Err(e);
            },
        };
        let comment = match line.comment {
            None => None,
            Some(text) => match Markdown::from_str(text.as_str()) {
                Ok(comment) => Some(comment),
                Err(e) => {
                    return Err(e);
                },
            },
        };
        Ok(Ingredient { name, comment, quantity: line.quantity, optional: line.optional })
    }

    /// Reads an ingredient from one line of text.
    pub fn from_str(s: &str) -> (r: Result<Ingredient, StructuralError>)
        ensures
            crate::parsers::model_of(r) == ingredient_in(s@),
    {
        match parse_line(s) {
            Ok(line) => Ingredient::from_line(line),
            Err(e) => Err(e),
        }
    }

    /// What the ingredient is called.
    pub fn name(&self) -> (r: &Markdown)
        ensures
            r.model() == self.model().name,
    {
        &self.name
    }

    /// What is said of the ingredient in passing.
    pub fn comment(&self) -> (r: Option<&Markdown>)
        ensures
            match r {
                Some(comment) => self.model().comment == Some(comment.model()),
                None => self.model().comment is None,
            },
    {
        self.comment.as_ref()
    }

    /// How much of the ingredient is taken.
    pub fn quantity(&self) -> (r: &Quantity)
        ensures
            r@ == self.model().quantity,
    {
        &self.quantity
    }

    /// Whether the ingredient can be left out.
    pub fn optional(&self) -> (r: bool)
        ensures
            r == self.model().optional,
    {
        self.optional
    }
}

/// The numbers of a line that is read are numbers as the grammar writes
/// them.
pub proof fn numbers_are_numbers(s: Seq<char>)
    ensures
        crate::grammar::line_of(s) matches Some(line) ==> numbers_in(line.quantity),
{
    let t = crate::grammar::trimmed(s);
    if t.len() > 0 {
        crate::grammar::lemma_first_tail(t, 1);
        lemma_tail_numbers(t, crate::grammar::first_tail(t, 1));
    }
}

} // verus!
