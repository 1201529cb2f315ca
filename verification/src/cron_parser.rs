//! The grammar parser: five space-separated fields, each an asterisk, a
//! stepped asterisk, or a comma-separated list of literals and (optionally
//! stepped) ranges; the day-of-week field also accepts three-letter names
//! and `L`. The grammar is stated as ghost parsing functions over character
//! sequences, and the runtime parser is proved to agree with them. Choices
//! are ordered: each rule tries its alternatives first to last and commits
//! to the first that succeeds.

use vstd::prelude::*;

use crate::ast::{lemma_list_model, models_seq, Expr, ExprModel};

verus! {

/// Which of the five schedule fields a grammar rule parses; this picks the
/// literal sub-grammar and with it the domain of accepted values.
#[derive(Debug, Clone, Copy, PartialEq, Eq, Structural)]
pub enum FieldType {
    Mins,
    Hours,
    Days,
    Months,
    DayOfWeeks,
}

/// A rejected schedule string: `position` is the character index at which
/// the grammar could not continue.
#[derive(Debug, Clone, Copy, PartialEq, Eq, Structural)]
pub struct ParseError {
    pub position: usize,
}

/// The numeric value of a decimal digit character, `-1` for any other.
pub open spec fn digit_val(c: char) -> int {
    match c {
        '0' => 0,
        '1' => 1,
        '2' => 2,
        '3' => 3,
        '4' => 4,
        '5' => 5,
        '6' => 6,
        '7' => 7,
        '8' => 8,
        '9' => 9,
        _ => -1,
    }
}

/// Whether `c` is a decimal digit.
pub open spec fn is_digit(c: char) -> bool {
    digit_val(c) >= 0
}

/// Case-insensitive match of one character against a letter given in both
/// cases.
pub open spec fn eq_ci(c: char, upper: char, lower: char) -> bool {
    c == upper || c == lower
}

/// Minute literal: `[1-5][0-9]`, or `0` followed by a digit (the digit's
/// value), or a single digit.
pub open spec fn sp_min_digit(s: Seq<char>, i: int) -> Option<(ExprModel, int)> {
    if i + 2 <= s.len() && 1 <= digit_val(s[i]) <= 5 && is_digit(s[i + 1]) {
        Some(
            (
                ExprModel::ValueExpr((10 * digit_val(s[i]) + digit_val(s[i + 1])) as u8),
                i + 2,
            ),
        )
    } else if i + 2 <= s.len() && s[i] == '0' && is_digit(s[i + 1]) {
        Some((ExprModel::ValueExpr(digit_val(s[i + 1]) as u8), i + 2))
    } else if i + 1 <= s.len() && is_digit(s[i]) {
        Some((ExprModel::ValueExpr(digit_val(s[i]) as u8), i + 1))
    } else {
        None
    }
}

/// Hour literal: `2[0-3]`, `1[0-9]`, `0` followed by a digit, or a single
/// digit.
pub open spec fn sp_hour_digit(s: Seq<char>, i: int) -> Option<(ExprModel, int)> {
    if i + 2 <= s.len() && s[i] == '2' && 0 <= digit_val(s[i + 1]) <= 3 {
        Some((ExprModel::ValueExpr((20 + digit_val(s[i + 1])) as u8), i + 2))
    } else if i + 2 <= s.len() && s[i] == '1' && is_digit(s[i + 1]) {
        Some((ExprModel::ValueExpr((10 + digit_val(s[i + 1])) as u8), i + 2))
    } else if i + 2 <= s.len() && s[i] == '0' && is_digit(s[i + 1]) {
        Some((ExprModel::ValueExpr(digit_val(s[i + 1]) as u8), i + 2))
    } else if i + 1 <= s.len() && is_digit(s[i]) {
        Some((ExprModel::ValueExpr(digit_val(s[i]) as u8), i + 1))
    } else {
        None
    }
}

/// Day-of-month literal: `3[01]`, `[12][0-9]`, `0[1-9]`, or a single
/// non-zero digit.
pub open spec fn sp_day_digit(s: Seq<char>, i: int) -> Option<(ExprModel, int)> {
    if i + 2 <= s.len() && s[i] == '3' && 0 <= digit_val(s[i + 1]) <= 1 {
        Some((ExprModel::ValueExpr((30 + digit_val(s[i + 1])) as u8), i + 2))
    } else if i + 2 <= s.len() && 1 <= digit_val(s[i]) <= 2 && is_digit(s[i + 1]) {
        Some(
            (
                ExprModel::ValueExpr((10 * digit_val(s[i]) + digit_val(s[i + 1])) as u8),
                i + 2,
            ),
        )
    } else if i + 2 <= s.len() && s[i] == '0' && 1 <= digit_val(s[i + 1]) {
        Some((ExprModel::ValueExpr(digit_val(s[i + 1]) as u8), i + 2))
    } else if i + 1 <= s.len() && 1 <= digit_val(s[i]) {
        Some((ExprModel::ValueExpr(digit_val(s[i]) as u8), i + 1))
    } else {
        None
    }
}

/// Month literal: `1[0-2]`, `0[1-9]`, or a single non-zero digit.
pub open spec fn sp_month_digit(s: Seq<char>, i: int) -> Option<(ExprModel, int)> {
    if i + 2 <= s.len() && s[i] == '1' && 0 <= digit_val(s[i + 1]) <= 2 {
        Some((ExprModel::ValueExpr((10 + digit_val(s[i + 1])) as u8), i + 2))
    } else if i + 2 <= s.len() && s[i] == '0' && 1 <= digit_val(s[i + 1]) {
        Some((ExprModel::ValueExpr(digit_val(s[i + 1]) as u8), i + 2))
    } else if i + 1 <= s.len() && 1 <= digit_val(s[i]) {
        Some((ExprModel::ValueExpr(digit_val(s[i]) as u8), i + 1))
    } else {
        None
    }
}

/// Day-of-week digit literal: a single digit `1` through `7`.
pub open spec fn sp_dow_text(s: Seq<char>, i: int) -> Option<(ExprModel, int)> {
    if i + 1 <= s.len() && 1 <= digit_val(s[i]) <= 7 {
        Some((ExprModel::ValueExpr(digit_val(s[i]) as u8), i + 1))
    } else {
        None
    }
}

/// Whether the three characters at `i` spell the given word, letter by
/// letter, ignoring case.
pub open spec fn sp_name3(
    s: Seq<char>,
    i: int,
    u0: char,
    l0: char,
    u1: char,
    l1: char,
    u2: char,
    l2: char,
) -> bool {
    &&& i + 3 <= s.len()
    &&& eq_ci(s[i], u0, l0)
    &&& eq_ci(s[i + 1], u1, l1)
    &&& eq_ci(s[i + 2], u2, l2)
}

/// Day-of-week name literal: one of the names `SUN` through `SAT` (ignoring
/// case), numbered 1 through 7, or the letter `L` for the last slot.
pub open spec fn sp_dow_name(s: Seq<char>, i: int) -> Option<(ExprModel, int)> {
    if sp_name3(s, i, 'S', 's', 'U', 'u', 'N', 'n') {
        Some((ExprModel::ValueExpr(1), i + 3))
    } else if sp_name3(s, i, 'M', 'm', 'O', 'o', 'N', 'n') {
        Some((ExprModel::ValueExpr(2), i + 3))
    } else if sp_name3(s, i, 'T', 't', 'U', 'u', 'E', 'e') {
        Some((ExprModel::ValueExpr(3), i + 3))
    } else if sp_name3(s, i, 'W', 'w', 'E', 'e', 'D', 'd') {
        Some((ExprModel::ValueExpr(4), i + 3))
    } else if sp_name3(s, i, 'T', 't', 'H', 'h', 'U', 'u') {
        Some((ExprModel::ValueExpr(5), i + 3))
    } else if sp_name3(s, i, 'F', 'f', 'R', 'r', 'I', 'i') {
        Some((ExprModel::ValueExpr(6), i + 3))
    } else if sp_name3(s, i, 'S', 's', 'A', 'a', 'T', 't') {
        Some((ExprModel::ValueExpr(7), i + 3))
    } else if i + 1 <= s.len() && s[i] == 'L' {
        Some((ExprModel::LastValueExpr, i + 1))
    } else {
        None
    }
}

/// The literal grammar of a field: digits for the numeric fields; for
/// day of week, a digit `1`-`7` first, then a name or `L`.
pub open spec fn sp_digit(t: FieldType, s: Seq<char>, i: int) -> Option<(ExprModel, int)> {
    match t {
        FieldType::Mins => sp_min_digit(s, i),
        FieldType::Hours => sp_hour_digit(s, i),
        FieldType::Days => sp_day_digit(s, i),
        FieldType::Months => sp_month_digit(s, i),
        FieldType::DayOfWeeks => match sp_dow_text(s, i) {
            Some(r) => Some(r),
            None => sp_dow_name(s, i),
        },
    }
}

/// The numeric value of a digit character, as a runtime value.
fn char_digit(c: char) -> (d: Option<u8>)
    ensures
        d is Some <==> is_digit(c),
        d matches Some(v) ==> v as int == digit_val(c),
{
    match c {
        '0' => Some(0),
        '1' => Some(1),
        '2' => Some(2),
        '3' => Some(3),
        '4' => Some(4),
        '5' => Some(5),
        '6' => Some(6),
        '7' => Some(7),
        '8' => Some(8),
        '9' => Some(9),
        _ => None,
    }
}

/// Relates a runtime parse outcome to a ghost one: both fail, or both
/// succeed with the same denoted tree and the same end position.
pub open spec fn result_models(r: Option<(Expr, usize)>, m: Option<(ExprModel, int)>) -> bool {
    match (r, m) {
        (Option::None, Option::None) => true,
        (Option::Some((e, j)), Option::Some((me, mj))) => e.model() == me && j as int == mj,
        _ => false,
    }
}

/// The literal grammar of the given field, as a runtime parse.
fn p_digit(t: FieldType, s: &Vec<char>, i: usize) -> (r: Option<(Expr, usize)>)
    ensures
        result_models(r, sp_digit(t, s@, i as int)),
        r matches Some((e, j)) ==> i < j <= s@.len(),
{
    match t {
        FieldType::DayOfWeeks => {
            match p_dow_text(s, i) {
                Some(x) => Some(x),
                None => p_dow_name(s, i),
            }
        },
        _ => p_numeric_digit(t, s, i),
    }
}

/// The numeric literal grammars (minute, hour, day, month).
fn p_numeric_digit(t: FieldType, s: &Vec<char>, i: usize) -> (r: Option<(Expr, usize)>)
    requires
        t != FieldType::DayOfWeeks,
    ensures
        result_models(r, sp_digit(t, s@, i as int)),
        r matches Some((e, j)) ==> i < j <= s@.len(),
{
    if i >= s.len() {
        return None;
    }
    let d0 = char_digit(s[i]);
    let d1 = if i + 1 < s.len() {
        char_digit(s[i + 1])
    } else {
        None
    };
    match t {
        FieldType::Mins => {
            match (d0, d1) {
                (Some(a), Some(b)) => {
                    if 1 <= a && a <= 5 {
                        Some((Expr::ValueExpr(10 * a + b), i + 2))
                    } else if a == 0 {
                        Some((Expr::ValueExpr(b), i + 2))
                    } else {
                        Some((Expr::ValueExpr(a), i + 1))
                    }
                },
                (Some(a), None) => Some((Expr::ValueExpr(a), i + 1)),
                _ => None,
            }
        },
        FieldType::Hours => {
            match (d0, d1) {
                (Some(a), Some(b)) => {
                    if a == 2 && b <= 3 {
                        Some((Expr::ValueExpr(20 + b), i + 2))
                    } else if a == 1 {
                        Some((Expr::ValueExpr(10 + b), i + 2))
                    } else if a == 0 {
                        Some((Expr::ValueExpr(b), i + 2))
                    } else {
                        Some((Expr::ValueExpr(a), i + 1))
                    }
                },
                (Some(a), None) => Some((Expr::ValueExpr(a), i + 1)),
                _ => None,
            }
        },
        FieldType::Days => {
            match (d0, d1) {
                (Some(a), Some(b)) => {
                    if a == 3 && b <= 1 {
                        Some((Expr::ValueExpr(30 + b), i + 2))
                    } else if 1 <= a && a <= 2 {
                        Some((Expr::ValueExpr(10 * a + b), i + 2))
                    } else if a == 0 && 1 <= b {
                        Some((Expr::ValueExpr(b), i + 2))
                    } else if 1 <= a {
                        Some((Expr::ValueExpr(a), i + 1))
                    } else {
                        None
                    }
                },
                (Some(a), None) => {
                    if 1 <= a {
                        Some((Expr::ValueExpr(a), i + 1))
                    } else {
                        None
                    }
                },
                _ => None,
            }
        },
        _ => {
            match (d0, d1) {
                (Some(a), Some(b)) => {
                    if a == 1 && b <= 2 {
                        Some((Expr::ValueExpr(10 + b), i + 2))
                    } else if a == 0 && 1 <= b {
                        Some((Expr::ValueExpr(b), i + 2))
                    } else if 1 <= a {
                        Some((Expr::ValueExpr(a), i + 1))
                    } else {
                        None
                    }
                },
                (Some(a), None) => {
                    if 1 <= a {
                        Some((Expr::ValueExpr(a), i + 1))
                    } else {
                        None
                    }
                },
                _ => None,
            }
        },
    }
}

/// A day-of-week digit `1`-`7`, as a runtime parse.
fn p_dow_text(s: &Vec<char>, i: usize) -> (r: Option<(Expr, usize)>)
    ensures
        result_models(r, sp_dow_text(s@, i as int)),
        r matches Some((e, j)) ==> i < j <= s@.len(),
{
    if i < s.len() {
        match char_digit(s[i]) {
            Some(d) => {
                if 1 <= d && d <= 7 {
                    Some((Expr::ValueExpr(d), i + 1))
                } else {
                    None
                }
            },
            None => None,
        }
    } else {
        None
    }
}

/// Case-insensitive test of the three characters at `i` against a word.
fn name3_at(s: &Vec<char>, i: usize, u0: char, l0: char, u1: char, l1: char, u2: char, l2: char) -> (r:
    bool)
    ensures
        r == sp_name3(s@, i as int, u0, l0, u1, l1, u2, l2),
{
    if i < s.len() && i + 1 < s.len() && i + 2 < s.len() {
        (s[i] == u0 || s[i] == l0) && (s[i + 1] == u1 || s[i + 1] == l1) && (s[i + 2] == u2 || s[i
            + 2] == l2)
    } else {
        false
    }
}

/// A day-of-week name `SUN`..`SAT` (ignoring case) or the letter `L`.
fn p_dow_name(s: &Vec<char>, i: usize) -> (r: Option<(Expr, usize)>)
    ensures
        result_models(r, sp_dow_name(s@, i as int)),
        r matches Some((e, j)) ==> i < j <= s@.len(),
{
    proof {
        vstd::std_specs::vec::axiom_spec_len(s);
    }
    if name3_at(s, i, 'S', 's', 'U', 'u', 'N', 'n') {
        Some((Expr::ValueExpr(1), i + 3))
    } else if name3_at(s, i, 'M', 'm', 'O', 'o', 'N', 'n') {
        Some((Expr::ValueExpr(2), i + 3))
    } else if name3_at(s, i, 'T', 't', 'U', 'u', 'E', 'e') {
        Some((Expr::ValueExpr(3), i + 3))
    } else if name3_at(s, i, 'W', 'w', 'E', 'e', 'D', 'd') {
        Some((Expr::ValueExpr(4), i + 3))
    } else if name3_at(s, i, 'T', 't', 'H', 'h', 'U', 'u') {
        Some((Expr::ValueExpr(5), i + 3))
    } else if name3_at(s, i, 'F', 'f', 'R', 'r', 'I', 'i') {
        Some((Expr::ValueExpr(6), i + 3))
    } else if name3_at(s, i, 'S', 's', 'A', 'a', 'T', 't') {
        Some((Expr::ValueExpr(7), i + 3))
    } else if i < s.len() && s[i] == 'L' {
        Some((Expr::LastValueExpr, i + 1))
    } else {
        None
    }
}

/// Reads a string into its character sequence.
fn to_chars(s: &str) -> (v: Vec<char>)
    ensures
        v@ == s@,
{
    let n = s.unicode_len();
    let mut v: Vec<char> = Vec::new();
    let mut k: usize = 0;
    while k < n
        invariant
            k <= n,
            n == s@.len(),
            v@.len() == k as int,
            forall|idx: int| 0 <= idx < k as int ==> v@[idx] == s@[idx],
        decreases n - k,
    {
        v.push(s.get_char(k));
        k = k + 1;
    }
    proof {
        assert(v@ =~= s@);
    }
    v
}

/// Parses a whole string as one minute literal.
pub fn min_digit(source: &str) -> (r: Option<Expr>)
    ensures
        complete_parse(r, sp_digit(FieldType::Mins, source@, 0), source@.len() as int),
{
    complete(FieldType::Mins, source)
}

/// Parses a whole string as one hour literal.
pub fn hour_digit(source: &str) -> (r: Option<Expr>)
    ensures
        complete_parse(r, sp_digit(FieldType::Hours, source@, 0), source@.len() as int),
{
    complete(FieldType::Hours, source)
}

/// Parses a whole string as one day-of-month literal.
pub fn day_digit(source: &str) -> (r: Option<Expr>)
    ensures
        complete_parse(r, sp_digit(FieldType::Days, source@, 0), source@.len() as int),
{
    complete(FieldType::Days, source)
}

/// Parses a whole string as one month literal.
pub fn month_digit(source: &str) -> (r: Option<Expr>)
    ensures
        complete_parse(r, sp_digit(FieldType::Months, source@, 0), source@.len() as int),
{
    complete(FieldType::Months, source)
}

/// Parses a whole string as one day-of-week digit `1`-`7`.
pub fn day_of_week_text(source: &str) -> (r: Option<Expr>)
    ensures
        complete_parse(r, sp_dow_text(source@, 0), source@.len() as int),
{
    let cs = to_chars(source);
    finish(p_dow_text(&cs, 0), cs.len())
}

/// Parses a whole string as one day-of-week name or `L`.
pub fn day_of_week_digit(source: &str) -> (r: Option<Expr>)
    ensures
        complete_parse(r, sp_dow_name(source@, 0), source@.len() as int),
{
    let cs = to_chars(source);
    finish(p_dow_name(&cs, 0), cs.len())
}

/// Relates a whole-string parse outcome to a ghost one: the parse succeeds
/// exactly when the rule succeeds and consumes every character.
pub open spec fn complete_parse(r: Option<Expr>, m: Option<(ExprModel, int)>, len: int) -> bool {
    match m {
        Some((me, mj)) => if mj == len {
            r matches Some(e) && e.model() == me
        } else {
            r is None
        },
        None => r is None,
    }
}

/// Keeps a positional parse only if it consumed the whole input.
fn finish(r: Option<(Expr, usize)>, len: usize) -> (out: Option<Expr>)
    ensures
        out is Some <==> (r matches Some((e, j)) && j == len),
        out matches Some(e) ==> r matches Some((e2, j)) && e == e2 && j == len,
{
    match r {
        Some((e, j)) => {
            if j == len {
                Some(e)
            } else {
                None
            }
        },
        None => None,
    }
}

/// Shared body of the whole-string literal parsers.
fn complete(t: FieldType, source: &str) -> (r: Option<Expr>)
    ensures
        complete_parse(r, sp_digit(t, source@, 0), source@.len() as int),
{
    let cs = to_chars(source);
    finish(p_digit(t, &cs, 0), cs.len())
}

/// An optional step suffix: `/` followed by a literal of the same field.
pub open spec fn sp_step(t: FieldType, s: Seq<char>, i: int) -> Option<(ExprModel, int)> {
    if i < s.len() && s[i] == '/' {
        sp_digit(t, s, i + 1)
    } else {
        None
    }
}

/// The grammar admits a range only when its bounds are not out of order;
/// bounds that are not both literal values are not constrained.
pub open spec fn range_order_ok(a: ExprModel, b: ExprModel) -> bool {
    match (a, b) {
        (ExprModel::ValueExpr(x), ExprModel::ValueExpr(y)) => x <= y,
        _ => true,
    }
}

/// A list element: a range `a-b` with an optional `/step`, or a bare
/// literal. A failed or out-of-order range falls back to the bare literal.
pub open spec fn sp_element(t: FieldType, s: Seq<char>, i: int) -> Option<(ExprModel, int)> {
    match sp_digit(t, s, i) {
        None => None,
        Some((e1, j1)) => if j1 < s.len() && s[j1] == '-' {
            match sp_digit(t, s, j1 + 1) {
                None => Some((e1, j1)),
                Some((e2, j2)) => if range_order_ok(e1, e2) {
                    match sp_step(t, s, j2) {
                        None => Some(
                            (
                                ExprModel::RangeExpr {
                                    from: Box::new(e1),
                                    to: Box::new(e2),
                                    per_option: Box::new(ExprModel::NoOp),
                                },
                                j2,
                            ),
                        ),
                        Some((e3, j3)) => Some(
                            (
                                ExprModel::RangeExpr {
                                    from: Box::new(e1),
                                    to: Box::new(e2),
                                    per_option: Box::new(e3),
                                },
                                j3,
                            ),
                        ),
                    }
                } else {
                    Some((e1, j1))
                },
            }
        } else {
            Some((e1, j1))
        },
    }
}

/// The elements after the first: as many `,`-element pairs as parse, and
/// the position after the last of them.
pub open spec fn sp_list_rest(t: FieldType, s: Seq<char>, i: int) -> (Seq<ExprModel>, int)
    decreases s.len() - i,
{
    if i < s.len() && s[i] == ',' {
        match sp_element(t, s, i + 1) {
            Some((e, j)) => if i < j <= s.len() {
                let (rest, end) = sp_list_rest(t, s, j);
                (seq![e] + rest, end)
            } else {
                (Seq::empty(), i)
            },
            None => (Seq::empty(), i),
        }
    } else {
        (Seq::empty(), i)
    }
}

/// A non-empty comma-separated list of elements; a one-element list is the
/// element itself.
pub open spec fn sp_list(t: FieldType, s: Seq<char>, i: int) -> Option<(ExprModel, int)> {
    match sp_element(t, s, i) {
        None => None,
        Some((e1, j1)) => {
            let (rest, end) = sp_list_rest(t, s, j1);
            if rest.len() == 0 {
                Some((e1, j1))
            } else {
                Some((ExprModel::ListExpr { exprs: seq![e1] + rest }, end))
            }
        },
    }
}

/// A stepped asterisk `*/n`: every `n`-th value from the field's base.
pub open spec fn sp_asterisk_per(t: FieldType, s: Seq<char>, i: int) -> Option<(ExprModel, int)> {
    if i + 2 <= s.len() && s[i] == '*' && s[i + 1] == '/' {
        match sp_digit(t, s, i + 2) {
            Some((e, j)) => Some(
                (
                    ExprModel::PerExpr {
                        digit: Box::new(ExprModel::AnyValueExpr),
                        option: Box::new(e),
                    },
                    j,
                ),
            ),
            None => None,
        }
    } else {
        None
    }
}

/// One whole field: a stepped asterisk, a bare asterisk, or a list.
pub open spec fn sp_field(t: FieldType, s: Seq<char>, i: int) -> Option<(ExprModel, int)> {
    match sp_asterisk_per(t, s, i) {
        Some(r) => Some(r),
        None => if i < s.len() && s[i] == '*' {
            Some((ExprModel::AnyValueExpr, i + 1))
        } else {
            sp_list(t, s, i)
        },
    }
}

/// A whole schedule: the five fields in order, separated by single spaces,
/// consuming the entire input.
pub open spec fn sp_cron(s: Seq<char>) -> Option<ExprModel> {
    match sp_field(FieldType::Mins, s, 0) {
        None => None,
        Some((m1, j1)) => if j1 < s.len() && s[j1] == ' ' {
            match sp_field(FieldType::Hours, s, j1 + 1) {
                None => None,
                Some((m2, j2)) => if j2 < s.len() && s[j2] == ' ' {
                    match sp_field(FieldType::Days, s, j2 + 1) {
                        None => None,
                        Some((m3, j3)) => if j3 < s.len() && s[j3] == ' ' {
                            match sp_field(FieldType::Months, s, j3 + 1) {
                                None => None,
                                Some((m4, j4)) => if j4 < s.len() && s[j4] == ' ' {
                                    match sp_field(FieldType::DayOfWeeks, s, j4 + 1) {
                                        None => None,
                                        Some((m5, j5)) => if j5 == s.len() {
                                            Some(
                                                ExprModel::CronExpr {
                                                    mins: Box::new(m1),
                                                    hours: Box::new(m2),
                                                    days: Box::new(m3),
                                                    months: Box::new(m4),
                                                    day_of_weeks: Box::new(m5),
                                                },
                                            )
                                        } else {
                                            None
                                        },
                                    }
                                } else {
                                    None
                                },
                            }
                        } else {
                            None
                        },
                    }
                } else {
                    None
                },
            }
        } else {
            None
        },
    }
}

/// Runtime step-suffix parse.
fn p_step(t: FieldType, s: &Vec<char>, i: usize) -> (r: Option<(Expr, usize)>)
    ensures
        result_models(r, sp_step(t, s@, i as int)),
        r matches Some((e, j)) ==> i < j <= s@.len(),
{
    if i < s.len() && s[i] == '/' {
        p_digit(t, s, i + 1)
    } else {
        None
    }
}

/// Runtime order test for range bounds.
fn range_order_ok_exec(a: &Expr, b: &Expr) -> (r: bool)
    ensures
        r == range_order_ok(a.model(), b.model()),
{
    match (a, b) {
        (Expr::ValueExpr(x), Expr::ValueExpr(y)) => *x <= *y,
        _ => true,
    }
}

/// Runtime list-element parse.
fn p_element(t: FieldType, s: &Vec<char>, i: usize) -> (r: Option<(Expr, usize)>)
    ensures
        result_models(r, sp_element(t, s@, i as int)),
        r matches Some((e, j)) ==> i < j <= s@.len(),
{
    match p_digit(t, s, i) {
        None => None,
        Some((e1, j1)) => {
            if j1 < s.len() && s[j1] == '-' {
                match p_digit(t, s, j1 + 1) {
                    None => Some((e1, j1)),
                    Some((e2, j2)) => {
                        if range_order_ok_exec(&e1, &e2) {
                            let ghost me1 = e1.model();
                            let ghost me2 = e2.model();
                            match p_step(t, s, j2) {
                                None => {
                                    let res = Expr::RangeExpr {
                                        from: Box::new(e1),
                                        to: Box::new(e2),
                                        per_option: Box::new(Expr::NoOp),
                                    };
                                    proof {
                                        assert(res is RangeExpr);
                                        assert(res->RangeExpr_from.model() == me1);
                                        assert(res->RangeExpr_to.model() == me2);
                                        assert(res->RangeExpr_per_option.model()
                                            == ExprModel::NoOp);
                                        assert(res.model() matches ExprModel::RangeExpr {
                                            from: mf,
                                            to: mt,
                                            per_option: mp,
                                        } && *mf == me1 && *mt == me2 && *mp
                                            == ExprModel::NoOp);
                                    }
                                    Some((res, j2))
                                },
                                Some((e3, j3)) => {
                                    let ghost me3 = e3.model();
                                    let res = Expr::RangeExpr {
                                        from: Box::new(e1),
                                        to: Box::new(e2),
                                        per_option: Box::new(e3),
                                    };
                                    proof {
                                        assert(res.model() matches ExprModel::RangeExpr {
                                            from: mf,
                                            to: mt,
                                            per_option: mp,
                                        } && *mf == me1 && *mt == me2 && *mp == me3);
                                    }
                                    Some((res, j3))
                                },
                            }
                        } else {
                            Some((e1, j1))
                        }
                    },
                }
            } else {
                Some((e1, j1))
            }
        },
    }
}

/// Runtime list parse: one element, then as many `,`-element pairs as
/// parse; a single element stands for itself.
fn p_list(t: FieldType, s: &Vec<char>, i: usize) -> (r: Option<(Expr, usize)>)
    ensures
        result_models(r, sp_list(t, s@, i as int)),
        r matches Some((e, j)) ==> i < j <= s@.len(),
{
    match p_element(t, s, i) {
        None => None,
        Some((e1, j1)) => {
            let ghost me1 = e1.model();
            let mut items: Vec<Expr> = Vec::new();
            items.push(e1);
            let mut j: usize = j1;
            loop
                invariant
                    i < j1 <= s@.len(),
                    j1 <= j <= s@.len(),
                    items@.len() >= 1,
                    sp_element(t, s@, i as int) == Some::<(ExprModel, int)>((me1, j1 as int)),
                    models_seq(items@) + sp_list_rest(t, s@, j as int).0 == seq![me1]
                        + sp_list_rest(t, s@, j1 as int).0,
                    sp_list_rest(t, s@, j as int).1 == sp_list_rest(t, s@, j1 as int).1,
                ensures
                    sp_list_rest(t, s@, j as int).0 == Seq::<ExprModel>::empty(),
                    sp_list_rest(t, s@, j as int).1 == j as int,
                decreases s@.len() - j as int,
            {
                if !(j < s.len() && s[j] == ',') {
                    break;
                }
                match p_element(t, s, j + 1) {
                    None => {
                        break;
                    },
                    Some((e, j2)) => {
                        let ghost me = e.model();
                        let ghost olditems = items@;
                        items.push(e);
                        proof {
                            assert(models_seq(items@) =~= models_seq(olditems).push(me));
                            assert(models_seq(olditems).push(me) + sp_list_rest(
                                t,
                                s@,
                                j2 as int,
                            ).0 =~= models_seq(olditems) + (seq![me] + sp_list_rest(
                                t,
                                s@,
                                j2 as int,
                            ).0));
                        }
                        j = j2;
                    },
                }
            }
            proof {
                assert(models_seq(items@) =~= seq![me1] + sp_list_rest(t, s@, j1 as int).0);
            }
            if items.len() == 1 {
                proof {
                    assert(sp_list_rest(t, s@, j1 as int).0 =~= Seq::<ExprModel>::empty());
                    assert(models_seq(items@)[0] == me1);
                }
                let e = match items.pop() {
                    Some(x) => x,
                    None => {
                        return None;
                    },
                };
                Some((e, j))
            } else {
                let res = Expr::ListExpr { exprs: items };
                proof {
                    lemma_list_model(res);
                }
                Some((res, j))
            }
        },
    }
}

/// Runtime field parse: stepped asterisk, bare asterisk, or list.
fn p_field(t: FieldType, s: &Vec<char>, i: usize) -> (r: Option<(Expr, usize)>)
    ensures
        result_models(r, sp_field(t, s@, i as int)),
        r matches Some((e, j)) ==> i < j <= s@.len(),
{
    if i < s.len() && s[i] == '*' {
        if i + 1 < s.len() && s[i + 1] == '/' {
            match p_digit(t, s, i + 2) {
                Some((e, j)) => {
                    let ghost me = e.model();
                    let res = Expr::PerExpr {
                        digit: Box::new(Expr::AnyValueExpr),
                        option: Box::new(e),
                    };
                    proof {
                        assert(res is PerExpr);
                        assert(res->PerExpr_digit.model() == ExprModel::AnyValueExpr);
                        assert(res->PerExpr_option.model() == me);
                        assert(res.model() matches ExprModel::PerExpr { digit: md, option: mo }
                            && *md == ExprModel::AnyValueExpr && *mo == me);
                    }
                    Some((res, j))
                },
                None => Some((Expr::AnyValueExpr, i + 1)),
            }
        } else {
            Some((Expr::AnyValueExpr, i + 1))
        }
    } else {
        p_list(t, s, i)
    }
}

/// Parses a whole string as a step suffix `/n`.
pub fn per(t: FieldType, source: &str) -> (r: Option<Expr>)
    ensures
        complete_parse(r, sp_step(t, source@, 0), source@.len() as int),
{
    let cs = to_chars(source);
    finish(p_step(t, &cs, 0), cs.len())
}

/// Parses a whole string as a stepped asterisk `*/n`.
pub fn asterisk_per(t: FieldType, source: &str) -> (r: Option<Expr>)
    ensures
        complete_parse(r, sp_asterisk_per(t, source@, 0), source@.len() as int),
{
    let cs = to_chars(source);
    let r = match p_field(t, &cs, 0) {
        Some((e, j)) => {
            if matches!(e, Expr::PerExpr { .. }) {
                Some((e, j))
            } else {
                None
            }
        },
        None => None,
    };
    finish(r, cs.len())
}

/// Parses a whole string as a comma-separated element list.
pub fn list(t: FieldType, source: &str) -> (r: Option<Expr>)
    ensures
        complete_parse(r, sp_list(t, source@, 0), source@.len() as int),
{
    let cs = to_chars(source);
    finish(p_list(t, &cs, 0), cs.len())
}

/// Parses a whole string as one field of the given kind.
pub fn digit_instruction(t: FieldType, source: &str) -> (r: Option<Expr>)
    ensures
        complete_parse(r, sp_field(t, source@, 0), source@.len() as int),
{
    let cs = to_chars(source);
    finish(p_field(t, &cs, 0), cs.len())
}

/// The entry point of the grammar.
pub struct CronParser;

impl CronParser {
    /// Parses a five-field schedule string into its syntax tree. The result
    /// is `Ok` exactly on the strings of the grammar, and the returned tree
    /// denotes what the grammar derives; otherwise the error carries the
    /// position at which parsing stopped.
    pub fn parse(source: &str) -> (r: Result<Expr, ParseError>)
        ensures
            match sp_cron(source@) {
                Some(m) => r matches Ok(e) && e.model() == m,
                None => r is Err,
            },
            r matches Err(pe) ==> pe.position <= source@.len(),
    {
        let cs = to_chars(source);
        let (mins, j1) = match p_field(FieldType::Mins, &cs, 0) {
            Some(x) => x,
            None => {
                return Err(ParseError { position: 0 });
            },
        };
        if !(j1 < cs.len() && cs[j1] == ' ') {
            return Err(ParseError { position: j1 });
        }
        let (hours, j2) = match p_field(FieldType::Hours, &cs, j1 + 1) {
            Some(x) => x,
            None => {
                return Err(ParseError { position: j1 + 1 });
            },
        };
        if !(j2 < cs.len() && cs[j2] == ' ') {
            return Err(ParseError { position: j2 });
        }
        let (days, j3) = match p_field(FieldType::Days, &cs, j2 + 1) {
            Some(x) => x,
            None => {
                return Err(ParseError { position: j2 + 1 });
            },
        };
        if !(j3 < cs.len() && cs[j3] == ' ') {
            return Err(ParseError { position: j3 });
        }
        let (months, j4) = match p_field(FieldType::Months, &cs, j3 + 1) {
            Some(x) => x,
            None => {
                return Err(ParseError { position: j3 + 1 });
            },
        };
        if !(j4 < cs.len() && cs[j4] == ' ') {
            return Err(ParseError { position: j4 });
        }
        let (day_of_weeks, j5) = match p_field(FieldType::DayOfWeeks, &cs, j4 + 1) {
            Some(x) => x,
            None => {
                return Err(ParseError { position: j4 + 1 });
            },
        };
        if j5 != cs.len() {
            return Err(ParseError { position: j5 });
        }
        Ok(
            Expr::CronExpr {
                mins: Box::new(mins),
                hours: Box::new(hours),
                days: Box::new(days),
                months: Box::new(months),
                day_of_weeks: Box::new(day_of_weeks),
            },
        )
    }
}

/// The character of a decimal digit.
pub open spec fn digit_char(d: int) -> char {
    if d == 0 {
        '0'
    } else if d == 1 {
        '1'
    } else if d == 2 {
        '2'
    } else if d == 3 {
        '3'
    } else if d == 4 {
        '4'
    } else if d == 5 {
        '5'
    } else if d == 6 {
        '6'
    } else if d == 7 {
        '7'
    } else if d == 8 {
        '8'
    } else {
        '9'
    }
}

/// Every minute value `0..=59` is accepted by the minute literal grammar,
/// both as its two-digit zero-padded text and, when one digit suffices, as
/// its unpadded text, and parses to that value.
pub proof fn lemma_minute_literal(n: u8)
    requires
        n <= 59,
    ensures
        sp_digit(
            FieldType::Mins,
            seq![digit_char(n as int / 10), digit_char(n as int % 10)],
            0,
        ) == Some((ExprModel::ValueExpr(n), 2int)),
        n <= 9 ==> sp_digit(FieldType::Mins, seq![digit_char(n as int)], 0) == Some(
            (ExprModel::ValueExpr(n), 1int),
        ),
{
    let s = seq![digit_char(n as int / 10), digit_char(n as int % 10)];
    assert(digit_val(s[0]) == n as int / 10);
    assert(digit_val(s[1]) == n as int % 10);
    assert(10 * (n as int / 10) + n as int % 10 == n as int) by {
        vstd::arithmetic::div_mod::lemma_fundamental_div_mod(n as int, 10);
    }
}

/// Every hour value `0..=23` parses in both textual forms to that value.
pub proof fn lemma_hour_literal(n: u8)
    requires
        n <= 23,
    ensures
        sp_digit(
            FieldType::Hours,
            seq![digit_char(n as int / 10), digit_char(n as int % 10)],
            0,
        ) == Some((ExprModel::ValueExpr(n), 2int)),
        n <= 9 ==> sp_digit(FieldType::Hours, seq![digit_char(n as int)], 0) == Some(
            (ExprModel::ValueExpr(n), 1int),
        ),
{
    let s = seq![digit_char(n as int / 10), digit_char(n as int % 10)];
    assert(digit_val(s[0]) == n as int / 10);
    assert(digit_val(s[1]) == n as int % 10);
    assert(10 * (n as int / 10) + n as int % 10 == n as int) by {
        vstd::arithmetic::div_mod::lemma_fundamental_div_mod(n as int, 10);
    }
}

/// Every day-of-month value `1..=31` parses in both textual forms to that
/// value.
pub proof fn lemma_day_literal(n: u8)
    requires
        1 <= n <= 31,
    ensures
        sp_digit(
            FieldType::Days,
            seq![digit_char(n as int / 10), digit_char(n as int % 10)],
            0,
        ) == Some((ExprModel::ValueExpr(n), 2int)),
        n <= 9 ==> sp_digit(FieldType::Days, seq![digit_char(n as int)], 0) == Some(
            (ExprModel::ValueExpr(n), 1int),
        ),
{
    let s = seq![digit_char(n as int / 10), digit_char(n as int % 10)];
    assert(digit_val(s[0]) == n as int / 10);
    assert(digit_val(s[1]) == n as int % 10);
    assert(10 * (n as int / 10) + n as int % 10 == n as int) by {
        vstd::arithmetic::div_mod::lemma_fundamental_div_mod(n as int, 10);
    }
}

/// Every month value `1..=12` parses in both textual forms to that value.
pub proof fn lemma_month_literal(n: u8)
    requires
        1 <= n <= 12,
    ensures
        sp_digit(
            FieldType::Months,
            seq![digit_char(n as int / 10), digit_char(n as int % 10)],
            0,
        ) == Some((ExprModel::ValueExpr(n), 2int)),
        n <= 9 ==> sp_digit(FieldType::Months, seq![digit_char(n as int)], 0) == Some(
            (ExprModel::ValueExpr(n), 1int),
        ),
{
    let s = seq![digit_char(n as int / 10), digit_char(n as int % 10)];
    assert(digit_val(s[0]) == n as int / 10);
    assert(digit_val(s[1]) == n as int % 10);
    assert(10 * (n as int / 10) + n as int % 10 == n as int) by {
        vstd::arithmetic::div_mod::lemma_fundamental_div_mod(n as int, 10);
    }
}

/// The unpadded decimal text of a minute value: one digit below ten, two
/// digits otherwise.
pub open spec fn dec_chars(n: u8) -> Seq<char> {
    if n < 10 {
        seq![digit_char(n as int)]
    } else {
        seq![digit_char(n as int / 10), digit_char(n as int % 10)]
    }
}

/// A minute literal standing at `i` in `s`, followed by no further digit,
/// parses to its value and consumes exactly its own characters.
pub proof fn lemma_min_digit_at(s: Seq<char>, i: int, n: u8)
    requires
        n <= 59,
        0 <= i,
        i + dec_chars(n).len() <= s.len(),
        forall|k: int| 0 <= k < dec_chars(n).len() ==> s[i + k] == dec_chars(n)[k],
        i + dec_chars(n).len() == s.len() || !is_digit(s[i + dec_chars(n).len()]),
    ensures
        sp_digit(FieldType::Mins, s, i) == Some((ExprModel::ValueExpr(n), i + dec_chars(n).len())),
{
    if n < 10 {
        assert(s[i + 0] == dec_chars(n)[0]);
        assert(digit_val(s[i]) == n as int);
    } else {
        assert(s[i + 0] == dec_chars(n)[0]);
        assert(s[i + 1] == dec_chars(n)[1]);
        assert(digit_val(s[i]) == n as int / 10);
        assert(digit_val(s[i + 1]) == n as int % 10);
        assert(10 * (n as int / 10) + n as int % 10 == n as int) by {
            vstd::arithmetic::div_mod::lemma_fundamental_div_mod(n as int, 10);
        }
    }
}

/// A minute literal standing at `i` in `s`, followed by a comma or the end
/// of input, is a whole list element: no range can follow it.
pub proof fn lemma_min_element_at(s: Seq<char>, i: int, n: u8)
    requires
        n <= 59,
        0 <= i,
        i + dec_chars(n).len() <= s.len(),
        forall|k: int| 0 <= k < dec_chars(n).len() ==> s[i + k] == dec_chars(n)[k],
        i + dec_chars(n).len() == s.len() || s[i + dec_chars(n).len()] == ',',
    ensures
        sp_element(FieldType::Mins, s, i) == Some(
            (ExprModel::ValueExpr(n), i + dec_chars(n).len()),
        ),
{
    lemma_min_digit_at(s, i, n);
}

/// The text of the elements of a list after the first: a comma before each
/// value's decimal text.
pub open spec fn render_list_rest(vs: Seq<u8>) -> Seq<char>
    decreases vs.len(),
{
    if vs.len() == 0 {
        Seq::empty()
    } else {
        seq![','] + dec_chars(vs[0]) + render_list_rest(vs.drop_first())
    }
}

/// The text of a non-empty list of values: the first value's decimal text,
/// then a comma before each further value.
pub open spec fn render_list(vs: Seq<u8>) -> Seq<char> {
    if vs.len() == 0 {
        Seq::empty()
    } else {
        dec_chars(vs[0]) + render_list_rest(vs.drop_first())
    }
}

/// Parsing the rendered tail of a list from `i`, when nothing follows it,
/// collects exactly the rendered values and stops at the end of input.
pub proof fn lemma_list_rest_render(s: Seq<char>, i: int, vs: Seq<u8>)
    requires
        forall|t: int| 0 <= t < vs.len() ==> vs[t] <= 59,
        0 <= i,
        s.len() == i + render_list_rest(vs).len(),
        forall|k: int| 0 <= k < render_list_rest(vs).len() ==> s[i + k] == render_list_rest(vs)[k],
    ensures
        sp_list_rest(FieldType::Mins, s, i) == (
            Seq::new(vs.len(), |t: int| ExprModel::ValueExpr(vs[t])),
            s.len() as int,
        ),
    decreases vs.len(),
{
    if vs.len() == 0 {
        assert(i == s.len());
        assert(Seq::new(vs.len(), |t: int| ExprModel::ValueExpr(vs[t]))
            =~= Seq::<ExprModel>::empty());
    } else {
        let d = dec_chars(vs[0]);
        let rest = render_list_rest(vs.drop_first());
        assert(render_list_rest(vs) == seq![','] + d + rest);
        assert(s[i + 0] == (seq![','] + d + rest)[0]);
        assert(s[i] == ',');
        let j: int = i + 1 + d.len() as int;
        assert forall|k: int| 0 <= k < d.len() implies s[i + 1 + k] == d[k] by {
            assert(s[i + (1 + k)] == (seq![','] + d + rest)[1 + k]);
        }
        if rest.len() == 0 {
            assert(j == s.len());
        } else {
            assert(s[i + (1 + d.len() as int)] == (seq![','] + d + rest)[1 + d.len() as int]);
            assert(rest[0] == ',') by {
                assert(rest == seq![','] + dec_chars(vs.drop_first()[0]) + render_list_rest(
                    vs.drop_first().drop_first(),
                ));
            }
            assert(s[j] == ',');
        }
        lemma_min_element_at(s, i + 1, vs[0]);
        assert forall|k: int| 0 <= k < rest.len() implies s[j + k] == rest[k] by {
            assert(s[i + (1 + d.len() as int + k)] == (seq![','] + d + rest)[1 + d.len() as int + k]);
        }
        lemma_list_rest_render(s, j, vs.drop_first());
        assert(Seq::new(vs.len(), |t: int| ExprModel::ValueExpr(vs[t])) =~= seq![
            ExprModel::ValueExpr(vs[0]),
        ] + Seq::new(vs.drop_first().len(), |t: int| ExprModel::ValueExpr(vs.drop_first()[t])));
    }
}

/// Parsing then evaluating round trip for generated lists of minute
/// literals: the rendered comma-joined text of any values `0..=59` parses
/// to exactly the list of those values (a single value standing alone), so
/// with `lemma_list_of_values_matches` the parsed list matches each listed
/// value and no other.
pub proof fn lemma_list_render_parses(vs: Seq<u8>)
    requires
        vs.len() >= 1,
        forall|t: int| 0 <= t < vs.len() ==> vs[t] <= 59,
    ensures
        sp_list(FieldType::Mins, render_list(vs), 0) == Some(
            (
                if vs.len() == 1 {
                    ExprModel::ValueExpr(vs[0])
                } else {
                    ExprModel::ListExpr {
                        exprs: Seq::new(vs.len(), |t: int| ExprModel::ValueExpr(vs[t])),
                    }
                },
                render_list(vs).len() as int,
            ),
        ),
{
    let s = render_list(vs);
    let d = dec_chars(vs[0]);
    let rest = render_list_rest(vs.drop_first());
    assert(s == d + rest);
    assert forall|k: int| 0 <= k < d.len() implies s[0 + k] == d[k] by {
        assert((d + rest)[k] == d[k]);
    }
    let j: int = 0 + d.len() as int;
    if rest.len() == 0 {
        assert(j == s.len());
    } else {
        assert(rest == seq![','] + dec_chars(vs.drop_first()[0]) + render_list_rest(
            vs.drop_first().drop_first(),
        ));
        assert(s[j] == rest[0]);
        assert(s[j] == ',');
    }
    lemma_min_element_at(s, 0, vs[0]);
    assert forall|k: int| 0 <= k < rest.len() implies s[j + k] == rest[k] by {
        assert((d + rest)[d.len() as int + k] == rest[k]);
    }
    lemma_list_rest_render(s, j, vs.drop_first());
    if vs.len() == 1 {
        assert(Seq::new(vs.drop_first().len(), |t: int| ExprModel::ValueExpr(vs.drop_first()[t]))
            =~= Seq::<ExprModel>::empty());
    } else {
        assert(Seq::new(vs.len(), |t: int| ExprModel::ValueExpr(vs[t])) =~= seq![
            ExprModel::ValueExpr(vs[0]),
        ] + Seq::new(vs.drop_first().len(), |t: int| ExprModel::ValueExpr(vs.drop_first()[t])));
    }
}

} // verus!
