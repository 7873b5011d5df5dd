//! The cells that a matrix is shown as, and the identifier of each.

use vstd::prelude::*;
use crate::grid::cell_at;
use crate::position::Position;

verus! {

/// The character that stands for the digit `d`.
pub open spec fn digit_char(d: nat) -> char {
    if d == 0 {
        '0'
    } else if d == 1 {
        '1'
    } else if d == 2 {
        '2'
    } else if d == 3 {
        '3'
    } else if d == 4 {
        '4'
    } else if d == 5 {
        '5'
    } else if d == 6 {
        '6'
    } else if d == 7 {
        '7'
    } else if d == 8 {
        '8'
    } else {
        '9'
    }
}

/// `n` written in base ten, without leading zeros.
pub open spec fn decimal(n: nat) -> Seq<char>
    decreases n,
{
    if n < 10 {
        seq![digit_char(n)]
    } else {
        decimal(n / 10).push(digit_char(n % 10))
    }
}

/// The identifier of the cell at `pos`: its row, a hyphen, its column.
pub open spec fn cell_id_text(pos: Position) -> Seq<char> {
    decimal(pos.row as nat) + seq!['-'] + decimal(pos.col as nat)
}

/// The digit that `c` stands for.
spec fn digit_value(c: char) -> nat {
    if c == '0' {
        0
    } else if c == '1' {
        1
    } else if c == '2' {
        2
    } else if c == '3' {
        3
    } else if c == '4' {
        4
    } else if c == '5' {
        5
    } else if c == '6' {
        6
    } else if c == '7' {
        7
    } else if c == '8' {
        8
    } else {
        9
    }
}

/// The number that the digits `s` spell in base ten.
spec fn decimal_value(s: Seq<char>) -> nat
    decreases s.len(),
{
    if s.len() == 0 {
        0
    } else {
        decimal_value(s.drop_last()) * 10 + digit_value(s.last())
    }
}

/// The base-ten text of a number is not empty, holds no hyphen, and spells
/// that number.
proof fn lemma_decimal_spells(n: nat)
    ensures
        decimal(n).len() >= 1,
        forall|i: int| 0 <= i < decimal(n).len() ==> decimal(n)[i] != '-',
        decimal_value(decimal(n)) == n,
    decreases n,
{
    if n < 10 {
        assert(seq![digit_char(n)].drop_last() =~= Seq::<char>::empty());
        assert(decimal_value(Seq::<char>::empty()) == 0);
        assert(decimal_value(seq![digit_char(n)]) == digit_value(digit_char(n)));
    } else {
        lemma_decimal_spells(n / 10);
        let head = decimal(n / 10);
        let text = head.push(digit_char(n % 10));
        assert(text.drop_last() =~= head);
        assert(text.last() == digit_char(n % 10));
        assert(decimal_value(text) == (n / 10) * 10 + n % 10);
    }
}

/// Different numbers have different base-ten texts.
pub proof fn lemma_decimal_injective(a: nat, b: nat)
    requires
        decimal(a) == decimal(b),
    ensures
        a == b,
{
    lemma_decimal_spells(a);
    lemma_decimal_spells(b);
}

/// An identifier names one cell only: two positions with the same
/// identifier are the same position.
pub proof fn lemma_cell_id_names_one_cell(p: Position, q: Position)
    requires
        cell_id_text(p) == cell_id_text(q),
    ensures
        p == q,
{
    let a = decimal(p.row as nat);
    let b = decimal(p.col as nat);
    let c = decimal(q.row as nat);
    let d = decimal(q.col as nat);
    let text = cell_id_text(p);
    lemma_decimal_spells(p.row as nat);
    lemma_decimal_spells(p.col as nat);
    lemma_decimal_spells(q.row as nat);
    lemma_decimal_spells(q.col as nat);
    assert(text == a + seq!['-'] + b);
    assert(text == c + seq!['-'] + d);
    assert(text.len() == a.len() + 1 + b.len());
    assert(text.len() == c.len() + 1 + d.len());
    if a.len() < c.len() {
        assert((a + seq!['-'] + b)[a.len() as int] == '-');
        assert((c + seq!['-'] + d)[a.len() as int] == c[a.len() as int]);
        assert(false);
    }
    if c.len() < a.len() {
        assert((c + seq!['-'] + d)[c.len() as int] == '-');
        assert((a + seq!['-'] + b)[c.len() as int] == a[c.len() as int]);
        assert(false);
    }
    assert forall|i: int| 0 <= i < a.len() implies a[i] == c[i] by {
        assert((a + seq!['-'] + b)[i] == a[i]);
        assert((c + seq!['-'] + d)[i] == c[i]);
    }
    assert(a =~= c);
    assert forall|i: int| 0 <= i < b.len() implies b[i] == d[i] by {
        assert((a + seq!['-'] + b)[a.len() + 1 + i] == b[i]);
        assert((c + seq!['-'] + d)[c.len() + 1 + i] == d[i]);
    }
    assert(b =~= d);
    lemma_decimal_injective(p.row as nat, q.row as nat);
    lemma_decimal_injective(p.col as nat, q.col as nat);
}

/// One cell of a shown matrix.
#[derive(Debug)]
pub struct Cell<T> {
    /// Where the cell stands.
    pub position: Position,
    /// The identifier under which the cell can be addressed.
    pub id: String,
    /// What the cell holds.
    pub value: T,
    /// Whether the user may overwrite the cell.
    pub editable: bool,
}

/// `cell` shows the cell of `g` at `pos`.
pub open spec fn is_cell_of<T>(cell: Cell<T>, g: Seq<Seq<T>>, pos: Position, editable: bool) -> bool {
    &&& cell.position == pos
    &&& cell.id@ == cell_id_text(pos)
    &&& cell.value == cell_at(g, pos)
    &&& cell.editable == editable
}

/// `table` shows `g` cell by cell, row by row.
pub open spec fn is_table_of<T>(table: Seq<Vec<Cell<T>>>, g: Seq<Seq<T>>, editable: bool) -> bool {
    &&& table.len() == g.len()
    &&& forall|r: int| 0 <= r < g.len() ==> (#[trigger] table[r])@.len() == g[r].len()
    &&& forall|r: int, c: int|
        0 <= r < g.len() && 0 <= c < g[r].len() ==> is_cell_of(
            #[trigger] table[r]@[c],
            g,
            Position { row: r as usize, col: c as usize },
            editable,
        )
}

/// The one-character text of the digit `d`.
fn digit_text(d: usize) -> (text: &'static str)
    requires
        d < 10,
    ensures
        text@ == seq![digit_char(d as nat)],
{
    proof {
        reveal_strlit("0");
        reveal_strlit("1");
        reveal_strlit("2");
        reveal_strlit("3");
        reveal_strlit("4");
        reveal_strlit("5");
        reveal_strlit("6");
        reveal_strlit("7");
        reveal_strlit("8");
        reveal_strlit("9");
    }
    let text = if d == 0 {
        "0"
    } else if d == 1 {
        "1"
    } else if d == 2 {
        "2"
    } else if d == 3 {
        "3"
    } else if d == 4 {
        "4"
    } else if d == 5 {
        "5"
    } else if d == 6 {
        "6"
    } else if d == 7 {
        "7"
    } else if d == 8 {
        "8"
    } else {
        "9"
    };
    assert(text@ =~= seq![digit_char(d as nat)]);
    text
}

/// Appends `n`, written in base ten, to `text`.
fn push_decimal(text: &mut String, n: usize)
    ensures
        final(text)@ == old(text)@ + decimal(n as nat),
    decreases n,
{
    if n >= 10 {
        push_decimal(text, n / 10);
    }
    text.append(digit_text(n % 10));
    assert(text@ =~= old(text)@ + decimal(n as nat));
}

/// The identifier of the cell at `pos`, such as `2-0` for the first cell of
/// the third row.
pub fn cell_id(pos: Position) -> (id: String)
    ensures
        id@ == cell_id_text(pos),
{
    let mut id = String::new();
    push_decimal(&mut id, pos.row);
    proof {
        reveal_strlit("-");
    }
    id.append("-");
    push_decimal(&mut id, pos.col);
    assert(id@ =~= cell_id_text(pos));
    id
}

} // verus!
