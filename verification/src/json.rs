//! The wire form of streaming bodies: each row result is one JSON value on
//! one line. The rendering is specified character by character, so a reader
//! of a streaming body knows the exact bytes each event produces.

use vstd::prelude::*;
use vstd::string::StrSliceExecFns;

use crate::api::{ChangeType, RowResult};
use crate::change::SqliteValue;

verus! {

/// The lower-case hexadecimal digit for `n`.
pub open spec fn hex_digit(n: int) -> char {
    if n == 0 {
        '0'
    } else if n == 1 {
        '1'
    } else if n == 2 {
        '2'
    } else if n == 3 {
        '3'
    } else if n == 4 {
        '4'
    } else if n == 5 {
        '5'
    } else if n == 6 {
        '6'
    } else if n == 7 {
        '7'
    } else if n == 8 {
        '8'
    } else if n == 9 {
        '9'
    } else if n == 10 {
        'a'
    } else if n == 11 {
        'b'
    } else if n == 12 {
        'c'
    } else if n == 13 {
        'd'
    } else if n == 14 {
        'e'
    } else {
        'f'
    }
}

/// The decimal digit for `n`.
pub open spec fn dec_digit(n: int) -> char {
    if n <= 9 {
        hex_digit(n)
    } else {
        '0'
    }
}

/// How one character appears inside a JSON string: quotes and backslashes
/// are escaped, the named control characters use their short escapes, the
/// remaining control characters the `\u00XX` form, and everything else
/// stands as itself.
pub open spec fn escaped_char(c: char) -> Seq<char> {
    if c == '"' {
        seq!['\\', '"']
    } else if c == '\\' {
        seq!['\\', '\\']
    } else if c == '\u{08}' {
        seq!['\\', 'b']
    } else if c == '\u{0C}' {
        seq!['\\', 'f']
    } else if c == '\n' {
        seq!['\\', 'n']
    } else if c == '\r' {
        seq!['\\', 'r']
    } else if c == '\t' {
        seq!['\\', 't']
    } else if (c as u32) < 0x20 {
        seq!['\\', 'u', '0', '0', hex_digit((c as u32) as int / 16), hex_digit(
            (c as u32) as int % 16,
        )]
    } else {
        seq![c]
    }
}

/// A character sequence as it appears inside a JSON string.
pub open spec fn escaped(s: Seq<char>) -> Seq<char>
    decreases s.len(),
{
    if s.len() == 0 {
        Seq::empty()
    } else {
        escaped_char(s[0]) + escaped(s.skip(1))
    }
}

/// A character sequence as a JSON string, quotes included.
pub open spec fn json_string(s: Seq<char>) -> Seq<char> {
    seq!['"'] + escaped(s) + seq!['"']
}

/// The decimal representation of a non-negative number, most significant
/// digit first, without leading zeros.
pub open spec fn dec_rep(n: nat) -> Seq<char>
    decreases n,
{
    if n < 10 {
        seq![dec_digit(n as int)]
    } else {
        dec_rep(n / 10) + seq![dec_digit((n % 10) as int)]
    }
}

/// The decimal representation of an integer, sign included.
pub open spec fn int_text(i: int) -> Seq<char> {
    if i < 0 {
        seq!['-'] + dec_rep((-i) as nat)
    } else {
        dec_rep(i as nat)
    }
}

/// Appends the characters of `s` to `out`.
#[verifier::loop_isolation(false)]
fn push_chars(out: &mut Vec<char>, s: &str)
    ensures
        final(out)@ == old(out)@ + s@,
{
    let n = s.unicode_len();
    let mut i: usize = 0;
    while i < n
        invariant
            i <= n == s@.len(),
            out@ == old(out)@ + s@.take(i as int),
        decreases n - i,
    {
        let c = s.get_char(i);
        out.push(c);
        proof {
            assert(old(out)@ + s@.take(i + 1) =~= (old(out)@ + s@.take(i as int)).push(s@[i as int]));
        }
        i = i + 1;
    }
    proof {
        assert(s@.take(n as int) =~= s@);
    }
}

fn hex_digit_char(n: u32) -> (c: char)
    requires
        n < 16,
    ensures
        c == hex_digit(n as int),
{
    match n {
        0 => '0',
        1 => '1',
        2 => '2',
        3 => '3',
        4 => '4',
        5 => '5',
        6 => '6',
        7 => '7',
        8 => '8',
        9 => '9',
        10 => 'a',
        11 => 'b',
        12 => 'c',
        13 => 'd',
        14 => 'e',
        _ => 'f',
    }
}

/// Appends the escaped form of `s` to `out`.
#[verifier::loop_isolation(false)]
fn push_escaped(out: &mut Vec<char>, s: &str)
    ensures
        final(out)@ == old(out)@ + escaped(s@),
{
    let n = s.unicode_len();
    let mut i: usize = 0;
    proof {
        assert(s@.skip(0) =~= s@);
    }
    while i < n
        invariant
            i <= n == s@.len(),
            old(out)@ + escaped(s@) == out@ + escaped(s@.skip(i as int)),
        decreases n - i,
    {
        let ghost pre = out@;
        let c = s.get_char(i);
        proof {
            assert(s@.skip(i as int)[0] == s@[i as int]);
            assert(s@.skip(i as int).skip(1) =~= s@.skip(i as int + 1));
        }
        if c == '"' {
            out.push('\\');
            out.push('"');
            proof {
                assert(out@ =~= pre + escaped_char(c));
            }
        } else if c == '\\' {
            out.push('\\');
            out.push('\\');
            proof {
                assert(out@ =~= pre + escaped_char(c));
            }
        } else if c == '\u{08}' {
            out.push('\\');
            out.push('b');
            proof {
                assert(out@ =~= pre + escaped_char(c));
            }
        } else if c == '\u{0C}' {
            out.push('\\');
            out.push('f');
            proof {
                assert(out@ =~= pre + escaped_char(c));
            }
        } else if c == '\n' {
            out.push('\\');
            out.push('n');
            proof {
                assert(out@ =~= pre + escaped_char(c));
            }
        } else if c == '\r' {
            out.push('\\');
            out.push('r');
            proof {
                assert(out@ =~= pre + escaped_char(c));
            }
        } else if c == '\t' {
            out.push('\\');
            out.push('t');
            proof {
                assert(out@ =~= pre + escaped_char(c));
            }
        } else if (c as u32) < 0x20 {
            out.push('\\');
            out.push('u');
            out.push('0');
            out.push('0');
            out.push(hex_digit_char((c as u32) / 16));
            out.push(hex_digit_char((c as u32) % 16));
            proof {
                assert(out@ =~= pre + escaped_char(c));
            }
        } else {
            out.push(c);
            proof {
                assert(out@ =~= pre + escaped_char(c));
            }
        }
        proof {
            assert(pre + (escaped_char(c) + escaped(s@.skip(i as int + 1))) =~= (pre + escaped_char(
                c,
            )) + escaped(s@.skip(i as int + 1)));
        }
        i = i + 1;
    }
    proof {
        assert(escaped(s@.skip(n as int)) =~= Seq::<char>::empty());
        assert(out@ + Seq::<char>::empty() =~= out@);
    }
}

/// Appends a quoted, escaped JSON string to `out`.
fn push_json_string(out: &mut Vec<char>, s: &str)
    ensures
        final(out)@ == old(out)@ + json_string(s@),
{
    let ghost pre = out@;
    out.push('"');
    push_escaped(out, s);
    out.push('"');
    proof {
        assert(out@ =~= pre + json_string(s@));
    }
}

/// Appends the decimal representation of `n` to `out`.
fn push_dec(out: &mut Vec<char>, n: u128)
    ensures
        final(out)@ == old(out)@ + dec_rep(n as nat),
    decreases n,
{
    if n < 10 {
        out.push(hex_digit_char(n as u32));
    } else {
        let ghost pre = out@;
        push_dec(out, n / 10);
        out.push(hex_digit_char((n % 10) as u32));
        proof {
            assert(out@ =~= pre + dec_rep((n as nat) / 10) + seq![
                dec_digit(((n as nat) % 10) as int),
            ]);
            assert(pre + dec_rep((n as nat) / 10) + seq![dec_digit(((n as nat) % 10) as int)] =~= pre
                + dec_rep(n as nat));
        }
    }
}

/// Appends the decimal representation of `i`, sign included, to `out`.
fn push_int(out: &mut Vec<char>, i: i64)
    ensures
        final(out)@ == old(out)@ + int_text(i as int),
{
    let ghost pre = out@;
    if i < 0 {
        out.push('-');
        let mag = (-(i as i128)) as u128;
        proof {
            assert(mag as nat == (-(i as int)) as nat);
        }
        push_dec(out, mag);
        proof {
            assert(out@ =~= pre + int_text(i as int));
        }
    } else {
        push_dec(out, i as u128);
    }
}

/// The items of a JSON array, separated by commas.
pub open spec fn comma_join(items: Seq<Seq<char>>) -> Seq<char>
    decreases items.len(),
{
    if items.len() == 0 {
        Seq::empty()
    } else if items.len() == 1 {
        items[0]
    } else {
        items[0] + seq![','] + comma_join(items.skip(1))
    }
}

/// One cell as a JSON value. A real-valued cell has no rendering here: the
/// host serializes those.
pub open spec fn cell_text(v: SqliteValue) -> Seq<char> {
    match v {
        SqliteValue::Null => "null"@,
        SqliteValue::Integer(i) => int_text(i as int),
        SqliteValue::Real(_) => Seq::empty(),
        SqliteValue::Text(s) => json_string(s@),
        SqliteValue::Blob(b) => seq!['['] + comma_join(
            b@.map_values(|x: u8| dec_rep(x as nat)),
        ) + seq![']'],
    }
}

pub open spec fn columns_items(names: Seq<String>) -> Seq<Seq<char>> {
    names.map_values(|n: String| json_string(n@))
}

pub open spec fn cells_items(cells: Seq<SqliteValue>) -> Seq<Seq<char>> {
    cells.map_values(|v: SqliteValue| cell_text(v))
}

pub open spec fn change_type_text(c: ChangeType) -> Seq<char> {
    match c {
        ChangeType::Upsert => "\"upsert\""@,
        ChangeType::Delete => "\"delete\""@,
    }
}

pub open spec fn has_real(cells: Seq<SqliteValue>) -> bool {
    exists|i: int| 0 <= i < cells.len() && cells[i] is Real
}

/// Whether the row result carries a real-valued cell, the one kind this
/// renderer leaves to the host.
pub open spec fn row_result_has_real(r: RowResult) -> bool {
    match r {
        RowResult::Row { cells, .. } => has_real(cells@),
        _ => false,
    }
}

/// One row result as the JSON value the wire carries.
pub open spec fn rendered(r: RowResult) -> Seq<char> {
    match r {
        RowResult::Columns(names) => "{\"columns\":["@ + comma_join(columns_items(names@))
            + "]}"@,
        RowResult::Row { rowid, change_type, cells } => "{\"row\":{\"rowid\":"@ + int_text(
            rowid as int,
        ) + ",\"change_type\":"@ + change_type_text(change_type) + ",\"cells\":["@ + comma_join(
            cells_items(cells@),
        ) + "]}}"@,
        RowResult::EndOfQuery => "\"end_of_query\""@,
        RowResult::Error(e) => "{\"error\":"@ + json_string(e@) + "}"@,
    }
}

/// Appends the comma-separated column names, each a JSON string, to `out`.
#[verifier::loop_isolation(false)]
fn push_columns(out: &mut Vec<char>, names: &Vec<String>)
    ensures
        final(out)@ == old(out)@ + comma_join(columns_items(names@)),
{
    let ghost items = columns_items(names@);
    let ghost target = old(out)@ + comma_join(items);
    let mut i: usize = 0;
    while i < names.len()
        invariant
            i <= names@.len() == items.len(),
            i == 0 ==> out@ == old(out)@,
            1 <= i < items.len() ==> target == out@ + seq![','] + comma_join(items.skip(i as int)),
            i == items.len() && i > 0 ==> out@ == target,
        decreases names@.len() - i,
    {
        proof {
            assert(items[i as int] == json_string(names@[i as int]@));
            assert(items.skip(i as int)[0] == items[i as int]);
            assert(items.skip(i as int).skip(1) =~= items.skip(i as int + 1));
        }
        if i > 0 {
            out.push(',');
        }
        push_json_string(out, names[i].as_str());
        proof {
            if i + 1 == items.len() {
                assert(out@ =~= target);
            } else {
                assert(target =~= out@ + seq![','] + comma_join(items.skip(i as int + 1)));
            }
        }
        i = i + 1;
    }
    proof {
        if names@.len() == 0 {
            assert(out@ =~= target);
        }
    }
}

/// Appends one cell as a JSON value to `out`.
fn push_cell(out: &mut Vec<char>, cell: &SqliteValue)
    requires
        !(cell is Real),
    ensures
        final(out)@ == old(out)@ + cell_text(*cell),
{
    match cell {
        SqliteValue::Null => {
            push_chars(out, "null");
        },
        SqliteValue::Integer(i) => {
            push_int(out, *i);
        },
        SqliteValue::Real(_) => {
            proof {
                assert(false);
            }
        },
        SqliteValue::Text(s) => {
            push_json_string(out, s.as_str());
        },
        SqliteValue::Blob(b) => {
            push_blob(out, b);
        },
    }
}

/// Appends a blob as a JSON array of byte values to `out`.
#[verifier::loop_isolation(false)]
fn push_blob(out: &mut Vec<char>, b: &Vec<u8>)
    ensures
        final(out)@ == old(out)@ + cell_text(SqliteValue::Blob(*b)),
{
    let ghost items = b@.map_values(|x: u8| dec_rep(x as nat));
    out.push('[');
    let ghost target = out@ + comma_join(items);
    let mut i: usize = 0;
    while i < b.len()
        invariant
            i <= b@.len() == items.len(),
            i == 0 ==> out@ + comma_join(items) == target,
            1 <= i < items.len() ==> target == out@ + seq![','] + comma_join(items.skip(i as int)),
            i == items.len() && i > 0 ==> out@ == target,
        decreases b@.len() - i,
    {
        proof {
            assert(items[i as int] == dec_rep(b@[i as int] as nat));
            assert(items.skip(i as int)[0] == items[i as int]);
            assert(items.skip(i as int).skip(1) =~= items.skip(i as int + 1));
        }
        if i > 0 {
            out.push(',');
        }
        push_dec(out, b[i] as u128);
        proof {
            if i + 1 == items.len() {
                assert(out@ =~= target);
            } else {
                assert(target =~= out@ + seq![','] + comma_join(items.skip(i as int + 1)));
            }
        }
        i = i + 1;
    }
    let ghost before_close = out@;
    out.push(']');
    proof {
        if b@.len() == 0 {
            assert(before_close =~= target);
        }
        assert(out@ =~= old(out)@ + cell_text(SqliteValue::Blob(*b)));
    }
}

/// Appends the comma-separated cells of one row to `out`.
#[verifier::loop_isolation(false)]
fn push_cells(out: &mut Vec<char>, cells: &Vec<SqliteValue>)
    requires
        !has_real(cells@),
    ensures
        final(out)@ == old(out)@ + comma_join(cells_items(cells@)),
{
    let ghost items = cells_items(cells@);
    let ghost target = old(out)@ + comma_join(items);
    let mut i: usize = 0;
    while i < cells.len()
        invariant
            i <= cells@.len() == items.len(),
            i == 0 ==> out@ == old(out)@,
            1 <= i < items.len() ==> target == out@ + seq![','] + comma_join(items.skip(i as int)),
            i == items.len() && i > 0 ==> out@ == target,
        decreases cells@.len() - i,
    {
        proof {
            if cells@[i as int] is Real {
                assert(has_real(cells@));
                assert(false);
            }
            assert(items[i as int] == cell_text(cells@[i as int]));
            assert(items.skip(i as int)[0] == items[i as int]);
            assert(items.skip(i as int).skip(1) =~= items.skip(i as int + 1));
        }
        if i > 0 {
            out.push(',');
        }
        push_cell(out, &cells[i]);
        proof {
            if i + 1 == items.len() {
                assert(out@ =~= target);
            } else {
                assert(target =~= out@ + seq![','] + comma_join(items.skip(i as int + 1)));
            }
        }
        i = i + 1;
    }
    proof {
        if cells@.len() == 0 {
            assert(out@ =~= target);
        }
    }
}

fn push_change_type(out: &mut Vec<char>, c: ChangeType)
    ensures
        final(out)@ == old(out)@ + change_type_text(c),
{
    match c {
        ChangeType::Upsert => push_chars(out, "\"upsert\""),
        ChangeType::Delete => push_chars(out, "\"delete\""),
    }
}

/// Renders one row result as its wire line: the JSON value followed by a
/// newline. A row whose cells hold a real number is left to the host's
/// serializer and yields `None`.
#[verifier::loop_isolation(false)]
pub fn render_row_result_line(r: &RowResult) -> (o: Option<Vec<char>>)
    ensures
        match o {
            Some(line) => !row_result_has_real(*r) && line@ == rendered(*r) + seq!['\n'],
            None => row_result_has_real(*r),
        },
{
    let mut out: Vec<char> = Vec::new();
    match r {
        RowResult::Columns(names) => {
            push_chars(&mut out, "{\"columns\":[");
            push_columns(&mut out, names);
            push_chars(&mut out, "]}");
            proof {
                assert(out@ =~= rendered(*r));
            }
        },
        RowResult::Row { rowid, change_type, cells } => {
            let mut i: usize = 0;
            while i < cells.len()
                invariant
                    i <= cells@.len(),
                    forall|j: int| 0 <= j < i ==> !((#[trigger] cells@[j]) is Real),
                decreases cells@.len() - i,
            {
                match &cells[i] {
                    SqliteValue::Real(_) => {
                        proof {
                            assert(has_real(cells@));
                        }
                        return None;
                    },
                    _ => {},
                }
                i = i + 1;
            }
            push_chars(&mut out, "{\"row\":{\"rowid\":");
            push_int(&mut out, *rowid);
            push_chars(&mut out, ",\"change_type\":");
            push_change_type(&mut out, *change_type);
            push_chars(&mut out, ",\"cells\":[");
            push_cells(&mut out, cells);
            push_chars(&mut out, "]}}");
            proof {
                assert(out@ =~= rendered(*r));
            }
        },
        RowResult::EndOfQuery => {
            push_chars(&mut out, "\"end_of_query\"");
            proof {
                assert(out@ =~= rendered(*r));
            }
        },
        RowResult::Error(e) => {
            push_chars(&mut out, "{\"error\":");
            push_json_string(&mut out, e.as_str());
            push_chars(&mut out, "}");
            proof {
                assert(out@ =~= rendered(*r));
            }
        },
    }
    let ghost value = out@;
    out.push('\n');
    proof {
        assert(out@ =~= value + seq!['\n']);
    }
    Some(out)
}

} // verus!
