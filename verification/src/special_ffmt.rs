//! The converter from text tables to table markup.
//!
//! In a text table `&` ends an item and `$` ends a row; a backslash before
//! either makes it literal. The last item of a row needs no `&` and the last
//! row needs no `$`.

use crate::escape::EscapeScheme;
use crate::lang_util::{collapse_whitespace, collapsed};
use crate::text::{append, append_str, part, to_chars, to_string};
use vstd::prelude::*;

verus! {

/// The first offset at or after `from` that holds `sep`; the end of the text
/// if there is none.
pub open spec fn next_of(s: Seq<char>, from: int, sep: char) -> int
    decreases s.len() - from,
{
    if from < 0 || from >= s.len() {
        s.len() as int
    } else if s[from] == sep {
        from
    } else {
        next_of(s, from + 1, sep)
    }
}

/// The pieces of the text from offset `from` on that `sep` separates: one
/// more than it has separators there. (The test that the separator lies at or
/// after `from` always holds; it shows that the definition ends.)
pub open spec fn split_from(s: Seq<char>, from: int, sep: char) -> Seq<Seq<char>>
    decreases s.len() - from,
{
    let at = next_of(s, from, sep);
    if from <= at < s.len() {
        seq![s.subrange(from, at)] + split_from(s, at + 1, sep)
    } else {
        seq![part(s, from, s.len() as int)]
    }
}

/// The items of one row: its pieces between `&`, without the last piece if
/// that is empty.
pub open spec fn cells(row: Seq<char>) -> Seq<Seq<char>> {
    let pieces = split_from(row, 0, '&');
    if pieces.last().len() == 0 {
        pieces.drop_last()
    } else {
        pieces
    }
}

/// The rows of a table: the items of its pieces between `$`, without the
/// last row if that has no item.
pub open spec fn rows(s: Seq<char>) -> Seq<Seq<Seq<char>>> {
    let all = split_from(s, 0, '$').map_values(|row: Seq<char>| cells(row));
    if all.last().len() == 0 {
        all.drop_last()
    } else {
        all
    }
}

/// The markup of the first `n` items of a row: `text{..}` for each.
pub open spec fn row_markup(items: Seq<Seq<char>>, n: nat) -> Seq<char>
    decreases n,
{
    if n == 0 || n > items.len() {
        Seq::empty()
    } else {
        row_markup(items, (n - 1) as nat) + "text{"@ + items[n - 1] + "}"@
    }
}

/// The markup of the first `n` rows of a table: `row{..}` for each.
pub open spec fn rows_markup(table: Seq<Seq<Seq<char>>>, n: nat) -> Seq<char>
    decreases n,
{
    if n == 0 || n > table.len() {
        Seq::empty()
    } else {
        rows_markup(table, (n - 1) as nat) + "row{"@ + row_markup(
            table[n - 1],
            table[n - 1].len(),
        ) + "}"@
    }
}

/// The markup of a table: its rows inside `table{..}`.
pub open spec fn table_markup(table: Seq<Seq<Seq<char>>>) -> Seq<char> {
    "table{"@ + rows_markup(table, table.len()) + "}"@
}

/// The markup snippet for a text table: the escaped separators are
/// protected, the rest is split into rows and items and written as markup,
/// the protected separators are put back (any other protected code is
/// removed), and every run of white space becomes one space.
pub open spec fn table_snippet(src: Seq<char>) -> Seq<char> {
    collapsed(
        EscapeScheme::Tabular.deprotected(
            table_markup(rows(EscapeScheme::Tabular.protected_from(src, 0))),
        ),
    )
}

/// The texts of a vector of character vectors.
pub open spec fn texts(v: Seq<Vec<char>>) -> Seq<Seq<char>> {
    v.map_values(|t: Vec<char>| t@)
}

/// The texts of a vector of rows.
pub open spec fn grid(v: Seq<Vec<Vec<char>>>) -> Seq<Seq<Seq<char>>> {
    v.map_values(|row: Vec<Vec<char>>| texts(row@))
}

/// A separator is not found before the first offset that holds it.
pub proof fn lemma_next_of_skips(s: Seq<char>, from: int, upto: int, sep: char)
    requires
        0 <= from <= upto <= s.len(),
        forall|j: int| from <= j < upto ==> s[j] != sep,
    ensures
        next_of(s, from, sep) == next_of(s, upto, sep),
        upto <= next_of(s, upto, sep) <= s.len(),
    decreases upto - from,
{
    if from < upto {
        lemma_next_of_skips(s, from + 1, upto, sep);
    } else {
        lemma_next_of_bounds(s, upto, sep);
    }
}

/// The next separator lies at or after the offset searched from.
pub proof fn lemma_next_of_bounds(s: Seq<char>, from: int, sep: char)
    requires
        0 <= from <= s.len(),
    ensures
        from <= next_of(s, from, sep) <= s.len(),
    decreases s.len() - from,
{
    if from < s.len() && s[from] != sep {
        lemma_next_of_bounds(s, from + 1, sep);
    }
}

/// The tabular scheme has no escape that is an error.
pub proof fn lemma_tabular_total(s: Seq<char>, from: int)
    ensures
        EscapeScheme::Tabular.last_fault_from(s, from) is None,
    decreases s.len() - from,
{
    if 0 <= from < s.len() {
        if EscapeScheme::Tabular.escape_at(s, from) {
            lemma_tabular_total(s, from + 2);
        } else {
            lemma_tabular_total(s, from + 1);
        }
    }
}

/// Splits `v` at every `sep`.
fn split_on(v: &Vec<char>, sep: char) -> (out: Vec<Vec<char>>)
    ensures
        texts(out@) == split_from(v@, 0, sep),
        out.len() >= 1,
{
    let ghost s = v@;
    let mut out: Vec<Vec<char>> = Vec::new();
    let mut piece: Vec<char> = Vec::new();
    let mut start: usize = 0;
    let mut at: usize = 0;
    assert(texts(out@) + split_from(s, 0, sep) =~= split_from(s, 0, sep));
    while at < v.len()
        invariant
            s == v@,
            start <= at <= v.len(),
            piece@ == s.subrange(start as int, at as int),
            forall|j: int| start <= j < at ==> s[j] != sep,
            split_from(s, 0, sep) == texts(out@) + split_from(s, start as int, sep),
        decreases v.len() - at,
    {
        if v[at] == sep {
            proof {
                lemma_next_of_skips(s, start as int, at as int, sep);
                assert(texts(out@.push(piece)) =~= texts(out@).push(piece@));
                assert(texts(out@).push(piece@) + split_from(s, at + 1, sep) =~= texts(out@) + (
                seq![piece@] + split_from(s, at + 1, sep)));
            }
            out.push(piece);
            piece = Vec::new();
            start = at + 1;
            assert(piece@ =~= s.subrange(start as int, at + 1));
        } else {
            piece.push(v[at]);
            assert(piece@ =~= s.subrange(start as int, at + 1));
        }
        at += 1;
    }
    proof {
        lemma_next_of_skips(s, start as int, at as int, sep);
        assert(part(s, start as int, s.len() as int) =~= piece@);
        assert(texts(out@.push(piece)) =~= texts(out@).push(piece@));
        assert(texts(out@).push(piece@) =~= texts(out@) + seq![piece@]);
    }
    out.push(piece);
    out
}

/// The items of one row; see [`cells`].
fn cells_of(row: &Vec<char>) -> (out: Vec<Vec<char>>)
    ensures
        texts(out@) == cells(row@),
{
    let mut out = split_on(row, '&');
    let last = out.len() - 1;
    assert(texts(out@).last() == out@[last as int]@);
    if out[last].len() == 0 {
        let ghost before = out@;
        out.pop();
        assert(texts(out@) =~= texts(before).drop_last());
    }
    out
}

/// The rows of a table; see [`rows`].
fn rows_of(v: &Vec<char>) -> (out: Vec<Vec<Vec<char>>>)
    ensures
        grid(out@) == rows(v@),
{
    let pieces = split_on(v, '$');
    let ghost all = split_from(v@, 0, '$').map_values(|row: Seq<char>| cells(row));
    let mut out: Vec<Vec<Vec<char>>> = Vec::new();
    let mut i: usize = 0;
    while i < pieces.len()
        invariant
            i <= pieces.len(),
            pieces.len() >= 1,
            texts(pieces@) == split_from(v@, 0, '$'),
            all == split_from(v@, 0, '$').map_values(|row: Seq<char>| cells(row)),
            grid(out@) == all.take(i as int),
        decreases pieces.len() - i,
    {
        let row = cells_of(&pieces[i]);
        proof {
            assert(texts(pieces@)[i as int] == pieces@[i as int]@);
            assert(grid(out@.push(row)) =~= grid(out@).push(texts(row@)));
            assert(all.take(i + 1) =~= all.take(i as int).push(all[i as int]));
        }
        out.push(row);
        i += 1;
    }
    assert(all.take(pieces.len() as int) =~= all);
    let last = out.len() - 1;
    assert(grid(out@).last() == texts(out@[last as int]@));
    if out[last].len() == 0 {
        let ghost before = out@;
        out.pop();
        assert(grid(out@) =~= grid(before).drop_last());
    }
    out
}

/// Writes the markup of a table; see [`table_markup`].
fn markup_of(table: &Vec<Vec<Vec<char>>>) -> (out: Vec<char>)
    ensures
        out@ == table_markup(grid(table@)),
{
    let ghost g = grid(table@);
    let mut out: Vec<char> = Vec::new();
    append_str(&mut out, "table{");
    let mut i: usize = 0;
    while i < table.len()
        invariant
            i <= table.len(),
            g == grid(table@),
            out@ == "table{"@ + rows_markup(g, i as nat),
        decreases table.len() - i,
    {
        let row = &table[i];
        let ghost items = texts(row@);
        assert(g[i as int] == items);
        let ghost head = out@;
        append_str(&mut out, "row{");
        let mut k: usize = 0;
        while k < row.len()
            invariant
                k <= row.len(),
                items == texts(row@),
                out@ == head + "row{"@ + row_markup(items, k as nat),
            decreases row.len() - k,
        {
            assert(items[k as int] == row@[k as int]@);
            append_str(&mut out, "text{");
            append(&mut out, &row[k]);
            append_str(&mut out, "}");
            assert(out@ =~= head + "row{"@ + row_markup(items, (k + 1) as nat));
            k += 1;
        }
        append_str(&mut out, "}");
        assert(out@ =~= "table{"@ + rows_markup(g, (i + 1) as nat));
        i += 1;
    }
    append_str(&mut out, "}");
    out
}

/// Converts a text table to a markup snippet of the form
/// `table{ row{ text{..} .. } .. }`; see [`table_snippet`].
pub fn vvtab_to_vvsml(src: &str) -> (out: String)
    ensures
        out@ == table_snippet(src@),
{
    let chars = to_chars(src);
    proof {
        lemma_tabular_total(chars@, 0);
    }
    // The tabular scheme has no escape that is an error.
    let guarded = match EscapeScheme::Tabular.protect(&chars) {
        Ok(text) => text,
        Err(_) => chars,
    };
    let table = rows_of(&guarded);
    let markup = markup_of(&table);
    let restored = EscapeScheme::Tabular.deprotect(&markup);
    to_string(&collapse_whitespace(&restored))
}

} // verus!
