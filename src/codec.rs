//! Conversion between zero-based (row, column) indices and the text of a
//! single address such as `"AB12"` or `"$AB$12"`.
use vstd::prelude::*;

use crate::cell::Cell;
use crate::error::WebExcelError;

verus! {

/// Largest zero-based row index of a sheet (row 1048576 in the sheet's own numbering).
pub const MAX_ROW: u32 = 1048575;

/// Largest zero-based column index of a sheet (column `XFD`).
pub const MAX_COLUMN: u32 = 16383;

/// Whether zero-based `(row, column)` lies on a sheet.
pub open spec fn in_bounds(row: int, column: int) -> bool {
    0 <= row <= MAX_ROW as int && 0 <= column <= MAX_COLUMN as int
}

/// The capital letter with rank `k` counted from zero (`'A'` for 0).
pub open spec fn letter_char(k: nat) -> char {
    ((65 + k) as u8) as char
}

/// The decimal digit character of `k < 10`.
pub open spec fn digit_char(k: nat) -> char {
    ((48 + k) as u8) as char
}

/// Letters of the one-based column number `n` in bijective base 26:
/// `A` is 1, `Z` is 26, `AA` is 27; zero has no letters.
pub open spec fn column_letters(n: nat) -> Seq<char>
    decreases n,
{
    if n == 0 {
        Seq::empty()
    } else {
        column_letters(((n - 1) / 26) as nat).push(letter_char(((n - 1) % 26) as nat))
    }
}

/// Decimal digits of `n`, most significant first, with no leading zero.
pub open spec fn decimal(n: nat) -> Seq<char>
    decreases n,
{
    if n < 10 {
        seq![digit_char(n)]
    } else {
        decimal(n / 10).push(digit_char(n % 10))
    }
}

/// A `$` when `on` holds, else nothing.
pub open spec fn marker(on: bool) -> Seq<char> {
    if on {
        seq!['$']
    } else {
        Seq::empty()
    }
}

/// Text of the address at zero-based `(row, column)`: the column letters, then
/// the one-based row number, with a `$` before the letters when the column is
/// anchored and before the digits when the row is anchored.
pub open spec fn address_text(row: nat, column: nat, fixed_row: bool, fixed_column: bool) -> Seq<
    char,
> {
    marker(fixed_column) + column_letters(column + 1) + marker(fixed_row) + decimal(row + 1)
}

/// Relies on `String::push`: the character is appended at the end.
pub assume_specification[ String::push ](s: &mut String, ch: char)
    ensures
        final(s)@ == old(s)@.push(ch),
;

/// Appends the letters of the one-based column number `n`.
fn push_column_letters(text: &mut String, n: u32)
    ensures
        final(text)@ == old(text)@ + column_letters(n as nat),
    decreases n,
{
    if n > 0 {
        let rank: u32 = (n - 1) % 26;
        push_column_letters(text, (n - 1) / 26);
        text.push((65u8 + rank as u8) as char);
        proof {
            let before = old(text)@ + column_letters(((n - 1) / 26) as nat);
            assert(before.push(letter_char(rank as nat)) =~= old(text)@ + column_letters(
                n as nat,
            ));
        }
    } else {
        assert(old(text)@ + column_letters(0) =~= old(text)@);
    }
}

/// Appends the decimal digits of `n`.
fn push_decimal(text: &mut String, n: u32)
    ensures
        final(text)@ == old(text)@ + decimal(n as nat),
    decreases n,
{
    if n >= 10 {
        push_decimal(text, n / 10);
    }
    text.push((48u8 + (n % 10) as u8) as char);
    proof {
        if n >= 10 {
            let before = old(text)@ + decimal((n / 10) as nat);
            assert(before.push(digit_char((n % 10) as nat)) =~= old(text)@ + decimal(n as nat));
        } else {
            assert(old(text)@.push(digit_char(n as nat)) =~= old(text)@ + decimal(n as nat));
        }
    }
}

/// Text of the address at zero-based `(row, col)`; `row_lock` and `col_lock`
/// anchor the row and the column. Fails with `OutOfBoundError` off the sheet.
pub fn r1c1_to_address(row: u32, col: u32, row_lock: bool, col_lock: bool) -> (r: Result<
    String,
    WebExcelError,
>)
    ensures
        match r {
            Ok(text) => in_bounds(row as int, col as int) && text@ == address_text(
                row as nat,
                col as nat,
                row_lock,
                col_lock,
            ),
            Err(e) => !in_bounds(row as int, col as int) && e == WebExcelError::OutOfBoundError,
        },
{
    if col > MAX_COLUMN || row > MAX_ROW {
        return Err(WebExcelError::OutOfBoundError);
    }
    let mut text = String::new();
    if col_lock {
        text.push('$');
    }
    push_column_letters(&mut text, col + 1);
    if row_lock {
        text.push('$');
    }
    push_decimal(&mut text, row + 1);
    assert(text@ =~= address_text(row as nat, col as nat, row_lock, col_lock));
    Ok(text)
}

/// An ASCII digit.
pub open spec fn is_digit(c: char) -> bool {
    '0' <= c && c <= '9'
}

/// An ASCII letter of either case.
pub open spec fn is_letter(c: char) -> bool {
    ('A' <= c && c <= 'Z') || ('a' <= c && c <= 'z')
}

/// The value of a digit character.
pub open spec fn digit_value(c: char) -> nat {
    (c as u32 - 48) as nat
}

/// The one-based rank of a letter in the alphabet, case ignored (`'A'` and `'a'` are 1).
pub open spec fn letter_rank(c: char) -> nat {
    if 'A' <= c && c <= 'Z' {
        (c as u32 - 64) as nat
    } else {
        (c as u32 - 96) as nat
    }
}

/// The one-based column number that the letters of `t` spell in bijective base 26,
/// read left to right; every other character is skipped.
pub open spec fn column_value(t: Seq<char>) -> nat
    decreases t.len(),
{
    if t.len() == 0 {
        0
    } else if is_letter(t.last()) {
        column_value(t.drop_last()) * 26 + letter_rank(t.last())
    } else {
        column_value(t.drop_last())
    }
}

/// The one-based row number that the digits of `t` spell in base 10, read left
/// to right; every other character is skipped.
pub open spec fn row_value(t: Seq<char>) -> nat
    decreases t.len(),
{
    if t.len() == 0 {
        0
    } else if is_digit(t.last()) {
        row_value(t.drop_last()) * 10 + digit_value(t.last())
    } else {
        row_value(t.drop_last())
    }
}

/// Every character of `t` is a letter, a digit or the anchor marker `$`.
pub open spec fn token_chars_valid(t: Seq<char>) -> bool {
    forall|i: int| 0 <= i < t.len() ==> is_letter(#[trigger] t[i]) || is_digit(t[i]) || t[i] == '$'
}

/// A `$` in `t` stands right before a letter.
pub open spec fn anchors_column(t: Seq<char>) -> bool {
    exists|i: int| 0 <= i && i + 1 < t.len() && #[trigger] t[i] == '$' && is_letter(t[i + 1])
}

/// A `$` in `t` stands right before a digit.
pub open spec fn anchors_row(t: Seq<char>) -> bool {
    exists|i: int| 0 <= i && i + 1 < t.len() && #[trigger] t[i] == '$' && is_digit(t[i + 1])
}

/// Why the single address `t` is refused, if it is: `ParseError` for a foreign
/// character or for missing letters or digits, `OutOfBoundError` for a row or
/// column off the sheet.
pub open spec fn token_error(t: Seq<char>) -> Option<WebExcelError> {
    if !token_chars_valid(t) || row_value(t) == 0 || column_value(t) == 0 {
        Some(WebExcelError::ParseError)
    } else if row_value(t) > MAX_ROW + 1 || column_value(t) > MAX_COLUMN + 1 {
        Some(WebExcelError::OutOfBoundError)
    } else {
        None
    }
}

/// The indices and anchors that a single address denotes.
pub struct Token {
    /// Zero-based row.
    pub row: u32,
    /// Zero-based column.
    pub column: u32,
    /// A `$` anchors the row.
    pub fixed_row: bool,
    /// A `$` anchors the column.
    pub fixed_column: bool,
}

/// `v`, or `cap` where `v` reaches it.
pub open spec fn capped(v: nat, cap: nat) -> nat {
    if v >= cap {
        cap
    } else {
        v
    }
}

proof fn lemma_capped_step(v: nat, cap: nat, base: nat, d: nat)
    requires
        base >= 1,
    ensures
        capped(capped(v, cap) * base + d, cap) == capped(v * base + d, cap),
{
    if v >= cap {
        assert(v * base >= cap) by (nonlinear_arith)
            requires
                v >= cap,
                base >= 1,
        ;
        assert(cap * base >= cap) by (nonlinear_arith)
            requires
                base >= 1,
        ;
    }
}

fn is_digit_char(c: char) -> (b: bool)
    ensures
        b == is_digit(c),
{
    '0' <= c && c <= '9'
}

fn is_letter_char(c: char) -> (b: bool)
    ensures
        b == is_letter(c),
{
    ('A' <= c && c <= 'Z') || ('a' <= c && c <= 'z')
}

/// Reads the single address `t` (no sheet): column letters in either case,
/// row digits, and `$` markers. Its result is exactly what `token_error`,
/// `row_value`, `column_value` and the anchor predicates say of `t`.
pub fn scan_token(t: &str) -> (r: Result<Token, WebExcelError>)
    ensures
        match r {
            Ok(tok) => token_error(t@) is None && tok.row == row_value(t@) - 1 && tok.column
                == column_value(t@) - 1 && tok.fixed_row == anchors_row(t@) && tok.fixed_column
                == anchors_column(t@),
            Err(e) => token_error(t@) == Some(e),
        },
{
    let n = t.unicode_len();
    let row_cap: u32 = MAX_ROW + 2;
    let column_cap: u32 = MAX_COLUMN + 2;
    let mut row: u32 = 0;
    let mut column: u32 = 0;
    let mut fixed_row = false;
    let mut fixed_column = false;
    let mut i: usize = 0;
    while i < n
        invariant
            n == t@.len(),
            i <= n,
            row_cap == MAX_ROW + 2,
            column_cap == MAX_COLUMN + 2,
            token_chars_valid(t@.subrange(0, i as int)),
            row == capped(row_value(t@.subrange(0, i as int)), row_cap as nat),
            column == capped(column_value(t@.subrange(0, i as int)), column_cap as nat),
            fixed_row == exists|j: int|
                0 <= j < i && j + 1 < n && #[trigger] t@[j] == '$' && is_digit(t@[j + 1]),
            fixed_column == exists|j: int|
                0 <= j < i && j + 1 < n && #[trigger] t@[j] == '$' && is_letter(t@[j + 1]),
        decreases n - i,
    {
        let c = t.get_char(i);
        let ghost prefix = t@.subrange(0, i as int);
        let ghost next = t@.subrange(0, i + 1);
        assert(next.drop_last() =~= prefix);
        assert(next.last() == c);
        if is_digit_char(c) {
            proof {
                lemma_capped_step(row_value(prefix), row_cap as nat, 10, digit_value(c));
            }
            if row < row_cap {
                row = row * 10 + (c as u32 - 48);
                if row > row_cap {
                    row = row_cap;
                }
            }
        } else if is_letter_char(c) {
            let rank: u32 = if 'A' <= c && c <= 'Z' {
                c as u32 - 64
            } else {
                c as u32 - 96
            };
            proof {
                lemma_capped_step(column_value(prefix), column_cap as nat, 26, letter_rank(c));
            }
            if column < column_cap {
                column = column * 26 + rank;
                if column > column_cap {
                    column = column_cap;
                }
            }
        } else if c == '$' {
            if i + 1 < n {
                let d = t.get_char(i + 1);
                if is_letter_char(d) {
                    fixed_column = true;
                } else if is_digit_char(d) {
                    fixed_row = true;
                }
            }
        } else {
            assert(!token_chars_valid(t@));
            return Err(WebExcelError::ParseError);
        }
        assert(token_chars_valid(next));
        i = i + 1;
    }
    assert(t@.subrange(0, n as int) =~= t@);
    if row == 0 || column == 0 {
        return Err(WebExcelError::ParseError);
    }
    if row == row_cap || column == column_cap {
        return Err(WebExcelError::OutOfBoundError);
    }
    Ok(Token { row: row - 1, column: column - 1, fixed_row, fixed_column })
}

/// Reads the single address `addr` (no sheet) into a cell with no sheet.
pub fn address_to_r1c1(addr: &str) -> (r: Result<Cell, WebExcelError>)
    ensures
        match r {
            Ok(cell) => token_error(addr@) is None && cell.row == row_value(addr@) - 1
                && cell.column == column_value(addr@) - 1 && cell.sheet is None && cell.fixed_row
                == anchors_row(addr@) && cell.fixed_column == anchors_column(addr@),
            Err(e) => token_error(addr@) == Some(e),
        },
{
    match scan_token(addr) {
        Ok(tok) => Ok(
            Cell {
                row: tok.row,
                column: tok.column,
                sheet: None,
                fixed_row: tok.fixed_row,
                fixed_column: tok.fixed_column,
            },
        ),
        Err(e) => Err(e),
    }
}

/// Position of the last `!` in `s`.
pub open spec fn last_bang(s: Seq<char>) -> Option<int>
    decreases s.len(),
{
    if s.len() == 0 {
        None
    } else if s.last() == '!' {
        Some(s.len() - 1)
    } else {
        last_bang(s.drop_last())
    }
}

/// The sheet that the full address `s` names: what stands before its last `!`.
pub open spec fn address_sheet(s: Seq<char>) -> Option<Seq<char>> {
    match last_bang(s) {
        Some(k) => Some(s.subrange(0, k)),
        None => None,
    }
}

/// The single address within the full address `s`: what follows its last `!`.
pub open spec fn address_token(s: Seq<char>) -> Seq<char> {
    match last_bang(s) {
        Some(k) => s.subrange(k + 1, s.len() as int),
        None => s,
    }
}

/// The view of an optional string.
pub open spec fn str_view(s: Option<&str>) -> Option<Seq<char>> {
    match s {
        Some(x) => Some(x@),
        None => None,
    }
}

/// Splits the full address `text` at its last `!` into the sheet and the
/// single address.
pub fn split_sheet(text: &str) -> (r: (Option<&str>, &str))
    ensures
        str_view(r.0) == address_sheet(text@),
        r.1@ == address_token(text@),
{
    let n = text.unicode_len();
    let mut i: usize = n;
    assert(text@.subrange(0, n as int) =~= text@);
    while i > 0
        invariant
            n == text@.len(),
            i <= n,
            last_bang(text@) == last_bang(text@.subrange(0, i as int)),
        decreases i,
    {
        let ghost prefix = text@.subrange(0, i as int);
        assert(prefix.drop_last() =~= text@.subrange(0, i - 1));
        if text.get_char(i - 1) == '!' {
            let sheet = text.substring_char(0, i - 1);
            let token = text.substring_char(i, n);
            return (Some(sheet), token);
        }
        i = i - 1;
    }
    (None, text)
}

/// The letters of a column number are capital letters that spell it back,
/// and there is at least one for a positive number.
proof fn lemma_column_letters(n: nat)
    ensures
        column_value(column_letters(n)) == n,
        forall|i: int|
            0 <= i < column_letters(n).len() ==> 'A' <= #[trigger] column_letters(n)[i] <= 'Z',
        n >= 1 ==> column_letters(n).len() >= 1,
    decreases n,
{
    if n > 0 {
        let q = ((n - 1) / 26) as nat;
        let rank = ((n - 1) % 26) as nat;
        lemma_column_letters(q);
        let c = letter_char(rank);
        assert(c as u32 == 65 + rank);
        assert(column_letters(n).drop_last() =~= column_letters(q));
        assert(column_letters(n).last() == c);
        assert(letter_rank(c) == rank + 1);
    }
}

/// The decimal digits of a number are digits that spell it back, and there
/// is at least one.
proof fn lemma_decimal(m: nat)
    ensures
        row_value(decimal(m)) == m,
        forall|i: int| 0 <= i < decimal(m).len() ==> is_digit(#[trigger] decimal(m)[i]),
        decimal(m).len() >= 1,
    decreases m,
{
    let c = digit_char(m % 10);
    assert(c as u32 == 48 + m % 10);
    assert(is_digit(c) && digit_value(c) == m % 10);
    assert(decimal(m).last() == c);
    if m >= 10 {
        lemma_decimal(m / 10);
        assert(decimal(m).drop_last() =~= decimal(m / 10));
        assert(m == (m / 10) * 10 + m % 10);
    } else {
        assert(decimal(m).drop_last() =~= Seq::<char>::empty());
        assert(row_value(Seq::<char>::empty()) == 0);
    }
}

/// Characters that hold no letter leave the column number alone, after the
/// letters or before them.
proof fn lemma_column_value_concat(a: Seq<char>, b: Seq<char>)
    ensures
        (forall|i: int| 0 <= i < b.len() ==> !is_letter(#[trigger] b[i])) ==> column_value(a + b)
            == column_value(a),
        (forall|i: int| 0 <= i < a.len() ==> !is_letter(#[trigger] a[i])) ==> column_value(a + b)
            == column_value(b),
    decreases b.len(),
{
    if b.len() == 0 {
        assert(a + b =~= a);
        if forall|i: int| 0 <= i < a.len() ==> !is_letter(#[trigger] a[i]) {
            lemma_no_letters(a);
        }
    } else {
        lemma_column_value_concat(a, b.drop_last());
        assert((a + b).drop_last() =~= a + b.drop_last());
        assert((a + b).last() == b.last());
    }
}

proof fn lemma_no_letters(a: Seq<char>)
    requires
        forall|i: int| 0 <= i < a.len() ==> !is_letter(#[trigger] a[i]),
    ensures
        column_value(a) == 0,
    decreases a.len(),
{
    if a.len() > 0 {
        lemma_no_letters(a.drop_last());
    }
}

/// Characters that hold no digit leave the row number alone, after the
/// digits or before them.
proof fn lemma_row_value_concat(a: Seq<char>, b: Seq<char>)
    ensures
        (forall|i: int| 0 <= i < b.len() ==> !is_digit(#[trigger] b[i])) ==> row_value(a + b)
            == row_value(a),
        (forall|i: int| 0 <= i < a.len() ==> !is_digit(#[trigger] a[i])) ==> row_value(a + b)
            == row_value(b),
    decreases b.len(),
{
    if b.len() == 0 {
        assert(a + b =~= a);
        if forall|i: int| 0 <= i < a.len() ==> !is_digit(#[trigger] a[i]) {
            lemma_no_digits(a);
        }
    } else {
        lemma_row_value_concat(a, b.drop_last());
        assert((a + b).drop_last() =~= a + b.drop_last());
        assert((a + b).last() == b.last());
    }
}

proof fn lemma_no_digits(a: Seq<char>)
    requires
        forall|i: int| 0 <= i < a.len() ==> !is_digit(#[trigger] a[i]),
    ensures
        row_value(a) == 0,
    decreases a.len(),
{
    if a.len() > 0 {
        lemma_no_digits(a.drop_last());
    }
}

/// Reading back the text of an address on the sheet gives its row, its
/// column and its anchors: no error, the one-based row and column numbers,
/// and a `$` before the letters or the digits exactly where it was written.
pub proof fn lemma_address_round_trip(row: nat, column: nat, fixed_row: bool, fixed_column: bool)
    requires
        in_bounds(row as int, column as int),
    ensures
        token_error(address_text(row, column, fixed_row, fixed_column)) is None,
        row_value(address_text(row, column, fixed_row, fixed_column)) == row + 1,
        column_value(address_text(row, column, fixed_row, fixed_column)) == column + 1,
        anchors_row(address_text(row, column, fixed_row, fixed_column)) == fixed_row,
        anchors_column(address_text(row, column, fixed_row, fixed_column)) == fixed_column,
        forall|i: int|
            0 <= i < address_text(row, column, fixed_row, fixed_column).len()
                ==> #[trigger] address_text(row, column, fixed_row, fixed_column)[i] != '!',
{
    let mc = marker(fixed_column);
    let letters = column_letters(column + 1);
    let mr = marker(fixed_row);
    let digits = decimal(row + 1);
    let head = mc + letters;
    let tail = mr + digits;
    let t = address_text(row, column, fixed_row, fixed_column);
    lemma_column_letters(column + 1);
    lemma_decimal(row + 1);
    assert(t =~= head + tail);
    assert forall|i: int| 0 <= i < letters.len() implies is_letter(#[trigger] letters[i])
        && !is_digit(letters[i]) && letters[i] != '$' && letters[i] != '!' by {
        assert('A' <= letters[i] <= 'Z');
    }
    assert forall|i: int| 0 <= i < digits.len() implies !is_letter(#[trigger] digits[i])
        && digits[i] != '$' && digits[i] != '!' by {
        assert(is_digit(digits[i]));
    }
    assert(forall|i: int| 0 <= i < mc.len() ==> #[trigger] mc[i] == '$');
    assert(forall|i: int| 0 <= i < mr.len() ==> #[trigger] mr[i] == '$');
    lemma_column_value_concat(mc, letters);
    lemma_column_value_concat(head, tail);
    lemma_row_value_concat(mc, letters);
    lemma_row_value_concat(head, tail);
    lemma_row_value_concat(mr, digits);
    assert(forall|i: int| 0 <= i < head.len() ==> !is_digit(#[trigger] head[i]));
    assert(forall|i: int| 0 <= i < tail.len() ==> !is_letter(#[trigger] tail[i]));
    assert forall|i: int| 0 <= i < t.len() implies (is_letter(#[trigger] t[i]) || is_digit(t[i])
        || t[i] == '$') && t[i] != '!' by {
        if i < mc.len() {
        } else if i < head.len() {
            assert(t[i] == letters[i - mc.len()]);
        } else if i < head.len() + mr.len() {
        } else {
            assert(t[i] == digits[i - head.len() - mr.len()]);
        }
    }
    // Where a `$` stands and what follows it.
    assert forall|i: int| 0 <= i && i + 1 < t.len() && #[trigger] t[i] == '$' implies (i == 0
        && fixed_column && is_letter(t[i + 1]) && !is_digit(t[i + 1])) || (i == head.len()
        && fixed_row && is_digit(t[i + 1]) && !is_letter(t[i + 1])) by {
        if i < mc.len() {
            assert(t[i + 1] == letters[0]);
        } else if i < head.len() {
            assert(t[i] == letters[i - mc.len()]);
        } else if i < head.len() + mr.len() {
            assert(t[i + 1] == digits[0]);
        } else {
            assert(t[i] == digits[i - head.len() - mr.len()]);
        }
    }
    if fixed_column {
        assert(t[0] == '$' && t[1] == letters[0]);
    }
    if fixed_row {
        assert(t[head.len() as int] == '$' && t[head.len() + 1int] == digits[0]);
    }
}

/// Text with no `!` after the last `!` of `a` leaves that position alone.
pub proof fn lemma_last_bang_suffix(a: Seq<char>, b: Seq<char>)
    requires
        forall|i: int| 0 <= i < b.len() ==> #[trigger] b[i] != '!',
    ensures
        last_bang(a + b) == last_bang(a),
    decreases b.len(),
{
    if b.len() == 0 {
        assert(a + b =~= a);
    } else {
        lemma_last_bang_suffix(a, b.drop_last());
        assert((a + b).drop_last() =~= a + b.drop_last());
        assert((a + b).last() == b.last());
    }
}

} // verus!
