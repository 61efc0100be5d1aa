//! Loading a grid from a textual description, and rendering it back.
//!
//! The description is line-oriented: the first line is a positive decimal
//! integer `n`, the grid's dimension, and it is followed by exactly `n`
//! lines of exactly `n` characters each, `'x'` for a live cell and `'o'`
//! for a dead one. A missing first line, a bad dimension token, a wrong
//! number of lines, a line of the wrong length or an unrecognized symbol is
//! a load error; no partial grid is ever returned. Rendering produces one
//! such text line per row, so that rendering a freshly loaded grid gives
//! back the description's data lines.

use vstd::prelude::*;
use vstd::string::{StrSliceExecFns, StringExecFns};

use crate::grid::{CellState, Grid};

verus! {

/// Whether `ch` is a decimal digit.
pub open spec fn is_dec_digit(ch: char) -> bool {
    48 <= ch as int <= 57
}

/// The value of a digit; other characters count as zero.
pub open spec fn digit_val(ch: char) -> nat {
    if is_dec_digit(ch) {
        (ch as int - 48) as nat
    } else {
        0
    }
}

/// The value of a string of decimal digits, most significant first.
pub open spec fn dec_value(s: Seq<char>) -> nat
    decreases s.len(),
{
    if s.len() == 0 {
        0
    } else {
        dec_value(s.drop_last()) * 10 + digit_val(s.last())
    }
}

/// A usable dimension token: at least one character, all of them decimal
/// digits, and a value that fits the machine's word.
pub open spec fn dim_token_ok(s: Seq<char>) -> bool {
    &&& s.len() >= 1
    &&& forall|i: int| 0 <= i < s.len() ==> is_dec_digit(#[trigger] s[i])
    &&& dec_value(s) <= usize::MAX
}

/// A usable dimension line: a dimension token whose value is positive and
/// small enough that an `n` x `n` grid is addressable.
pub open spec fn dim_line_ok(s: Seq<char>) -> bool {
    &&& dim_token_ok(s)
    &&& 1 <= dec_value(s)
    &&& dec_value(s) * dec_value(s) <= usize::MAX
}

/// A usable data line for dimension `n`: exactly `n` characters, each the
/// live symbol `'x'` or the dead symbol `'o'`.
pub open spec fn data_line_ok(s: Seq<char>, n: nat) -> bool {
    &&& s.len() == n
    &&& forall|j: int| 0 <= j < s.len() ==> ((#[trigger] s[j]) == 'x' || s[j] == 'o')
}

/// The index of the first unusable data line at or after `i`, or
/// `lines.len()` if every one from `i` on is usable.
pub open spec fn first_bad_from(lines: Seq<Seq<char>>, n: nat, i: int) -> int
    decreases lines.len() - i,
{
    if i >= lines.len() {
        lines.len() as int
    } else if !data_line_ok(lines[i], n) {
        i
    } else {
        first_bad_from(lines, n, i + 1)
    }
}

/// A fully usable description: a usable dimension line announcing `n`,
/// followed by exactly `n` usable data lines.
pub open spec fn load_ok(lines: Seq<Seq<char>>) -> bool {
    &&& lines.len() >= 1
    &&& dim_line_ok(lines[0])
    &&& lines.len() == dec_value(lines[0]) + 1
    &&& forall|i: int| 1 <= i < lines.len() ==> data_line_ok(#[trigger] lines[i], dec_value(lines[0]))
}

/// The grid a usable description denotes: row `r` comes from line `r + 1`,
/// a cell live exactly where the line holds `'x'`.
pub open spec fn grid_of(lines: Seq<Seq<char>>) -> Seq<Seq<bool>>
    recommends
        lines.len() >= 1,
{
    Seq::new(
        (lines.len() - 1) as nat,
        |r: int| Seq::new(lines[r + 1].len(), |c: int| lines[r + 1][c] == 'x'),
    )
}

/// Why a description was rejected.
#[derive(Clone, Copy, PartialEq, Eq, Structural, Debug)]
pub enum LoadError {
    /// The description has no lines at all.
    MissingHeader,
    /// The first line is not a usable positive dimension.
    BadDimension,
    /// The number of data lines differs from the announced dimension.
    WrongLineCount,
    /// The first unusable data line has the wrong length.
    BadLineLength,
    /// The first unusable data line holds a character that is neither
    /// `'x'` nor `'o'`.
    BadSymbol,
}

/// The error an unusable description is rejected with: the checks run in
/// order, and among the data lines the first unusable one decides.
pub open spec fn load_error(lines: Seq<Seq<char>>) -> LoadError
    recommends
        !load_ok(lines),
{
    if lines.len() == 0 {
        LoadError::MissingHeader
    } else if !dim_line_ok(lines[0]) {
        LoadError::BadDimension
    } else if lines.len() != dec_value(lines[0]) + 1 {
        LoadError::WrongLineCount
    } else if lines[first_bad_from(lines, dec_value(lines[0]), 1)].len() != dec_value(lines[0]) {
        LoadError::BadLineLength
    } else {
        LoadError::BadSymbol
    }
}

/// The value of any prefix of a digit string is at most the value of the
/// whole: appending a digit multiplies the value by ten and adds the digit.
proof fn lemma_dec_value_prefix(s: Seq<char>, k: int)
    requires
        0 <= k <= s.len(),
    ensures
        dec_value(s.take(k)) <= dec_value(s),
    decreases s.len() - k,
{
    if k == s.len() {
        assert(s.take(k) =~= s);
    } else {
        assert(s.take(k + 1).drop_last() =~= s.take(k));
        assert(s.take(k + 1).last() == s[k]);
        lemma_dec_value_prefix(s, k + 1);
    }
}

/// For positive `n`, comparing `n` against `usize::MAX / n` decides whether
/// `n * n` is addressable.
proof fn lemma_square_fits(n: usize)
    requires
        1 <= n,
    ensures
        n <= usize::MAX / n <==> n * n <= usize::MAX,
{
    vstd::arithmetic::div_mod::lemma_fundamental_div_mod(usize::MAX as int, n as int);
    vstd::arithmetic::div_mod::lemma_mod_bound(usize::MAX as int, n as int);
    if n <= usize::MAX / n {
        vstd::arithmetic::mul::lemma_mul_inequality(
            n as int,
            (usize::MAX / n) as int,
            n as int,
        );
    } else {
        vstd::arithmetic::mul::lemma_mul_inequality(
            (usize::MAX / n + 1) as int,
            n as int,
            n as int,
        );
        vstd::arithmetic::mul::lemma_mul_is_distributive_add(
            n as int,
            (usize::MAX / n) as int,
            1,
        );
    }
}

/// Parses a dimension token: `Some` exactly when the line is nonempty, all
/// digits, and its value fits the machine's word.
fn parse_dimension(line: &str) -> (r: Option<usize>)
    ensures
        match r {
            Some(v) => dim_token_ok(line@) && v == dec_value(line@),
            None => !dim_token_ok(line@),
        },
{
    let len = line.unicode_len();
    if len == 0 {
        return None;
    }
    let mut val: usize = 0;
    let mut i: usize = 0;
    while i < len
        invariant
            len == line@.len(),
            i <= len,
            forall|k: int| 0 <= k < i ==> is_dec_digit(#[trigger] line@[k]),
            val == dec_value(line@.take(i as int)),
        decreases len - i,
    {
        let ch = line.get_char(i);
        let u = ch as u32;
        if u < 48 || u > 57 {
            return None;
        }
        let d = (u - 48) as usize;
        proof {
            assert(line@.take(i + 1).drop_last() =~= line@.take(i as int));
            assert(line@.take(i + 1).last() == line@[i as int]);
            vstd::arithmetic::div_mod::lemma_fundamental_div_mod(
                (usize::MAX - d) as int,
                10,
            );
            vstd::arithmetic::div_mod::lemma_mod_bound((usize::MAX - d) as int, 10);
        }
        if val > (usize::MAX - d) / 10 {
            proof {
                lemma_dec_value_prefix(line@, i + 1);
            }
            return None;
        }
        val = val * 10 + d;
        i += 1;
    }
    proof {
        assert(line@.take(len as int) =~= line@);
    }
    Some(val)
}

/// If the data lines before `i` are usable and line `i` is not, then `i` is
/// the first unusable one.
proof fn lemma_first_bad_here(lines: Seq<Seq<char>>, n: nat, lo: int, i: int)
    requires
        0 <= lo <= i < lines.len(),
        forall|k: int| lo <= k < i ==> data_line_ok(#[trigger] lines[k], n),
        !data_line_ok(lines[i], n),
    ensures
        first_bad_from(lines, n, lo) == i,
    decreases i - lo,
{
    if lo < i {
        lemma_first_bad_here(lines, n, lo + 1, i);
    }
}

/// Loads a grid from the lines of a textual description. Returns the grid
/// exactly when the description is usable, and otherwise the error that the
/// first failed check gives, with no partial grid.
pub fn parse_grid(lines: &Vec<String>) -> (r: Result<Grid, LoadError>)
    ensures
        match r {
            Ok(g) => {
                &&& load_ok(lines.deep_view())
                &&& g.wf()
                &&& g.rows == dec_value(lines.deep_view()[0])
                &&& g.cols == g.rows
                &&& g@ == grid_of(lines.deep_view())
            },
            Err(e) => {
                &&& !load_ok(lines.deep_view())
                &&& e == load_error(lines.deep_view())
            },
        },
{
    let ghost lv: Seq<Seq<char>> = lines.deep_view();
    if lines.len() == 0 {
        return Err(LoadError::MissingHeader);
    }
    let n = match parse_dimension(lines[0].as_str()) {
        Some(v) => v,
        None => {
            return Err(LoadError::BadDimension);
        },
    };
    if n == 0 {
        return Err(LoadError::BadDimension);
    }
    proof {
        lemma_square_fits(n);
    }
    if n > usize::MAX / n {
        return Err(LoadError::BadDimension);
    }
    if lines.len() - 1 != n {
        return Err(LoadError::WrongLineCount);
    }
    let mut g = Grid::new_dead(n, n);
    let mut i: usize = 1;
    while i < lines.len()
        invariant
            lv == lines.deep_view(),
            lv.len() == lines@.len(),
            1 <= i <= lines@.len(),
            lines@.len() == n + 1,
            n as nat == dec_value(lv[0]),
            dim_line_ok(lv[0]),
            g.wf(),
            g.rows == n,
            g.cols == n,
            forall|k: int| 1 <= k < i ==> data_line_ok(#[trigger] lv[k], n as nat),
            forall|rr: int, cc: int|
                0 <= rr < i - 1 && 0 <= cc < n ==> g@[rr][cc] == (lv[rr + 1][cc] == 'x'),
        decreases lines@.len() - i,
    {
        let line = lines[i].as_str();
        if line.unicode_len() != n {
            proof {
                lemma_first_bad_here(lv, n as nat, 1, i as int);
            }
            return Err(LoadError::BadLineLength);
        }
        let mut j: usize = 0;
        while j < n
            invariant
                lv == lines.deep_view(),
                1 <= i < lines@.len(),
                lines@.len() == n + 1,
                n as nat == dec_value(lv[0]),
                dim_line_ok(lv[0]),
                forall|k: int| 1 <= k < i ==> data_line_ok(#[trigger] lv[k], n as nat),
                j <= n,
                line@ == lv[i as int],
                line@.len() == n,
                g.wf(),
                g.rows == n,
                g.cols == n,
                forall|jj: int| 0 <= jj < j ==> (lv[i as int][jj] == 'x' || lv[i as int][jj] == 'o'),
                forall|rr: int, cc: int|
                    0 <= rr < i - 1 && 0 <= cc < n ==> g@[rr][cc] == (lv[rr + 1][cc] == 'x'),
                forall|cc: int| 0 <= cc < j ==> g@[i - 1][cc] == (lv[i as int][cc] == 'x'),
            decreases n - j,
        {
            let ch = line.get_char(j);
            if ch == 'x' {
                g.set(i - 1, j, CellState::Live);
            } else if ch == 'o' {
                g.set(i - 1, j, CellState::Dead);
            } else {
                proof {
                    lemma_first_bad_here(lv, n as nat, 1, i as int);
                }
                return Err(LoadError::BadSymbol);
            }
            j += 1;
        }
        i += 1;
    }
    proof {
        assert(g@ =~~= grid_of(lv));
    }
    Ok(g)
}

/// The text symbol of one cell.
pub open spec fn symbol_of(b: bool) -> char {
    if b {
        'x'
    } else {
        'o'
    }
}

/// The text of one row: one symbol per cell.
pub open spec fn row_text(row: Seq<bool>) -> Seq<char> {
    Seq::new(row.len(), |j: int| symbol_of(row[j]))
}

/// Renders one row of the grid as a text line.
pub fn render_row(g: &Grid, r: usize) -> (s: String)
    requires
        g.wf(),
        r < g.rows,
    ensures
        s@ == row_text(g@[r as int]),
{
    let mut s = String::new();
    let mut c: usize = 0;
    while c < g.cols
        invariant
            g.wf(),
            r < g.rows,
            c <= g.cols,
            s@.len() == c,
            forall|j: int| 0 <= j < c ==> s@[j] == symbol_of(g@[r as int][j]),
        decreases g.cols - c,
    {
        proof {
            reveal_strlit("x");
            reveal_strlit("o");
        }
        if g.is_live(r, c) {
            s.append("x");
        } else {
            s.append("o");
        }
        c += 1;
    }
    proof {
        assert(s@ =~= row_text(g@[r as int]));
    }
    s
}

/// Renders the whole grid: one text line per row, top to bottom.
pub fn render(g: &Grid) -> (v: Vec<String>)
    requires
        g.wf(),
    ensures
        v@.len() == g.rows,
        forall|i: int| 0 <= i < g.rows ==> (#[trigger] v@[i])@ == row_text(g@[i]),
{
    let mut v: Vec<String> = Vec::new();
    let mut r: usize = 0;
    while r < g.rows
        invariant
            g.wf(),
            r <= g.rows,
            v@.len() == r,
            forall|i: int| 0 <= i < r ==> (#[trigger] v@[i])@ == row_text(g@[i]),
        decreases g.rows - r,
    {
        let row = render_row(g, r);
        v.push(row);
        r += 1;
    }
    v
}

/// Load round-trip: the rows of the grid a usable description denotes,
/// rendered back to text, are exactly the description's data lines — the
/// whole description but its header.
pub proof fn lemma_load_round_trip(lines: Seq<Seq<char>>)
    requires
        load_ok(lines),
    ensures
        Seq::new(grid_of(lines).len(), |r: int| row_text(grid_of(lines)[r])) == lines.subrange(
            1,
            lines.len() as int,
        ),
{
    let g = grid_of(lines);
    let rendered = Seq::new(g.len(), |r: int| row_text(g[r]));
    let datalines = lines.subrange(1, lines.len() as int);
    assert forall|r: int| 0 <= r < g.len() implies rendered[r] == datalines[r] by {
        assert(data_line_ok(lines[r + 1], dec_value(lines[0])));
        assert(rendered[r] =~= datalines[r]);
    }
    assert(rendered =~= datalines);
}

} // verus!
