//! The table that `list` prints: metadata of secrets, never their values.
use crate::app::{Listed, Listing};
use crate::calendar::{utc, utc_text};
use crate::text::{decimal, decimal_text, padding_keeps_the_text, space_pad, space_padded};
use vstd::prelude::*;

verus! {

/// The column titles.
pub open spec fn header() -> Seq<Seq<char>> {
    seq!["LABEL"@, "VERSION"@, "BYTES"@, "STATUS"@, "ENTROPY"@, "CREATED (UTC)"@]
}

/// The cells of a secret.
pub open spec fn cells(listed: Listed) -> Seq<Seq<char>> {
    seq![
        listed.label@,
        decimal(listed.version as nat),
        decimal(listed.bytes as nat),
        listed.status@,
        match listed.entropy_mode {
            Some(mode) => mode@,
            None => "-"@,
        },
        match listed.created_at {
            Some(seconds) => utc_text(seconds as int),
            None => "-"@,
        },
    ]
}

/// The rows of the table: the titles, then one row for each secret.
pub open spec fn rows(secrets: Seq<Listed>) -> Seq<Seq<Seq<char>>> {
    Seq::new(secrets.len() + 1, |i: int| if i == 0 { header() } else { cells(secrets[i - 1]) })
}

/// The width of a column: that of its widest cell, in characters.
pub open spec fn width(rows: Seq<Seq<Seq<char>>>, column: int) -> nat
    decreases rows.len(),
{
    if rows.len() == 0 {
        0
    } else {
        let rest = width(rows.drop_last(), column);
        let last = rows.last()[column].len();
        if last > rest {
            last
        } else {
            rest
        }
    }
}

/// A row of the table: the cells, padded to the width of their column and two spaces apart; the last cell
/// is not padded.
pub open spec fn line(rows: Seq<Seq<Seq<char>>>, i: int) -> Seq<char> {
    space_padded(rows[i][0], width(rows, 0)) + "  "@ + space_padded(rows[i][1], width(rows, 1)) + "  "@ + space_padded(
        rows[i][2],
        width(rows, 2),
    ) + "  "@ + space_padded(rows[i][3], width(rows, 3)) + "  "@ + space_padded(rows[i][4], width(rows, 4)) + "  "@ + rows[i][5]
}

/// What `list` prints for no secrets.
pub open spec fn no_secrets(prefix: Seq<char>) -> Seq<char> {
    "No secrets yet. Labels must start with \""@ + prefix + "\"."@
}

/// The texts of a row.
pub open spec fn row_texts(row: Vec<String>) -> Seq<Seq<char>> {
    row@.map_values(|cell: String| cell@)
}

/// The texts of rows.
pub open spec fn all_texts(rows: Seq<Vec<String>>) -> Seq<Seq<Seq<char>>> {
    rows.map_values(|row: Vec<String>| row_texts(row))
}

fn header_row() -> (row: Vec<String>)
    ensures
        row_texts(row) == header(),
{
    let row: Vec<String> = vec![
        "LABEL".to_owned(),
        "VERSION".to_owned(),
        "BYTES".to_owned(),
        "STATUS".to_owned(),
        "ENTROPY".to_owned(),
        "CREATED (UTC)".to_owned(),
    ];
    assert(row_texts(row) =~= header());
    row
}

fn cell_row(listed: &Listed) -> (row: Vec<String>)
    ensures
        row_texts(row) == cells(*listed),
{
    let mode = match &listed.entropy_mode {
        Some(mode) => mode.clone(),
        None => "-".to_owned(),
    };
    let created = match listed.created_at {
        Some(seconds) => utc(seconds),
        None => "-".to_owned(),
    };
    let row: Vec<String> = vec![
        listed.label.clone(),
        decimal_text(listed.version),
        decimal_text(listed.bytes as u64),
        listed.status.to_owned(),
        mode,
        created,
    ];
    assert(row_texts(row) =~= cells(*listed));
    row
}

/// The width of a column.
fn column_width(rows: &Vec<Vec<String>>, column: usize) -> (result: usize)
    requires
        forall|i: int| 0 <= i < rows@.len() ==> column < (#[trigger] rows@[i])@.len(),
    ensures
        result == width(all_texts(rows@), column as int),
{
    let mut result: usize = 0;
    let mut i: usize = 0;
    while i < rows.len()
        invariant
            i <= rows@.len(),
            forall|i: int| 0 <= i < rows@.len() ==> column < (#[trigger] rows@[i])@.len(),
            result == width(all_texts(rows@).take(i as int), column as int),
        decreases rows@.len() - i,
    {
        let length: usize = rows[i][column].as_str().unicode_len();
        proof {
            let now = all_texts(rows@).take(i + 1);
            assert(now.drop_last() =~= all_texts(rows@).take(i as int));
            assert(now.last() == row_texts(rows@[i as int]));
        }
        if length > result {
            result = length;
        }
        i += 1;
    }
    assert(all_texts(rows@).take(rows@.len() as int) =~= all_texts(rows@));
    result
}

/// The lines that `list` prints.
pub fn table(listing: &Listing) -> (lines: Vec<String>)
    ensures
        if listing.secrets@.len() == 0 {
            lines@.len() == 1 && lines@[0]@ == no_secrets(listing.label_prefix@)
        } else {
            &&& lines@.len() == listing.secrets@.len() + 1
            &&& forall|i: int| 0 <= i < lines@.len() ==> (#[trigger] lines@[i])@ == line(rows(listing.secrets@), i)
        },
{
    let mut lines: Vec<String> = Vec::new();
    if listing.secrets.len() == 0 {
        let mut text = "No secrets yet. Labels must start with \"".to_owned();
        text.append(listing.label_prefix.as_str());
        text.append("\".");
        lines.push(text);
        return lines;
    }
    let mut all: Vec<Vec<String>> = Vec::new();
    all.push(header_row());
    let mut k: usize = 0;
    while k < listing.secrets.len()
        invariant
            k <= listing.secrets@.len(),
            all@.len() == k + 1,
            row_texts(all@[0]) == header(),
            forall|i: int| 0 < i <= k ==> row_texts(#[trigger] all@[i]) == cells(listing.secrets@[i - 1]),
        decreases listing.secrets@.len() - k,
    {
        all.push(cell_row(&listing.secrets[k]));
        k += 1;
    }
    let ghost expected = rows(listing.secrets@);
    proof {
        assert(all_texts(all@) =~= expected);
        assert forall|i: int| 0 <= i < all@.len() implies (#[trigger] all@[i])@.len() == 6 by {
            assert(row_texts(all@[i]).len() == 6);
        }
    }
    let w0: usize = column_width(&all, 0);
    let w1: usize = column_width(&all, 1);
    let w2: usize = column_width(&all, 2);
    let w3: usize = column_width(&all, 3);
    let w4: usize = column_width(&all, 4);
    let mut i: usize = 0;
    while i < all.len()
        invariant
            i <= all@.len(),
            all@.len() == listing.secrets@.len() + 1,
            lines@.len() == i,
            expected == rows(listing.secrets@),
            all_texts(all@) == expected,
            forall|i: int| 0 <= i < all@.len() ==> (#[trigger] all@[i])@.len() == 6,
            w0 == width(expected, 0),
            w1 == width(expected, 1),
            w2 == width(expected, 2),
            w3 == width(expected, 3),
            w4 == width(expected, 4),
            forall|j: int| 0 <= j < i ==> (#[trigger] lines@[j])@ == line(expected, j),
        decreases all@.len() - i,
    {
        let row = &all[i];
        proof {
            assert(expected[i as int] == row_texts(*row));
        }
        let mut text = space_pad(row[0].as_str(), w0);
        text.append("  ");
        text.append(space_pad(row[1].as_str(), w1).as_str());
        text.append("  ");
        text.append(space_pad(row[2].as_str(), w2).as_str());
        text.append("  ");
        text.append(space_pad(row[3].as_str(), w3).as_str());
        text.append("  ");
        text.append(space_pad(row[4].as_str(), w4).as_str());
        text.append("  ");
        text.append(row[5].as_str());
        assert(text@ == line(expected, i as int));
        lines.push(text);
        i += 1;
    }
    lines
}

/// No cell is wider than its column, and every column is as wide as one of its cells.
pub proof fn columns_fit_their_cells(rows: Seq<Seq<Seq<char>>>, column: int)
    requires
        rows.len() > 0,
    ensures
        forall|i: int| 0 <= i < rows.len() ==> (#[trigger] rows[i])[column].len() <= width(rows, column),
        exists|i: int| 0 <= i < rows.len() && (#[trigger] rows[i])[column].len() == width(rows, column),
    decreases rows.len(),
{
    let before = rows.drop_last();
    let last = rows.last()[column].len();
    assert(rows[rows.len() - 1] == rows.last());
    if before.len() > 0 {
        columns_fit_their_cells(before, column);
        assert forall|i: int| 0 <= i < rows.len() implies (#[trigger] rows[i])[column].len() <= width(rows, column) by {
            if i < before.len() {
                assert(before[i] == rows[i]);
            }
        }
        if last <= width(before, column) {
            let i = choose|i: int| 0 <= i < before.len() && (#[trigger] before[i])[column].len() == width(before, column);
            assert(rows[i][column].len() == width(rows, column));
        }
    }
}

/// A part of a text stays where it is when more is added.
proof fn a_part_stays(text: Seq<char>, more: Seq<char>, start: int, end: int)
    requires
        0 <= start <= end <= text.len(),
    ensures
        (text + more).subrange(start, end) == text.subrange(start, end),
{
    assert((text + more).subrange(start, end) =~= text.subrange(start, end));
}

/// Two additions in a row are one.
proof fn lines_grow(text: Seq<char>, cell: Seq<char>, gap: Seq<char>)
    ensures
        text + cell + gap == text + (cell + gap),
{
    assert(text + cell + gap =~= text + (cell + gap));
}

/// A cell stands in full behind what comes before it, and what follows starts at the same place in each
/// line.
proof fn a_cell_stands(rows: Seq<Seq<Seq<char>>>, i: int, column: int, before: Seq<char>, gap: Seq<char>)
    requires
        0 <= i < rows.len(),
    ensures
        ({
            let cell = rows[i][column];
            let text = before + space_padded(cell, width(rows, column)) + gap;
            &&& text.len() == before.len() + width(rows, column) + gap.len()
            &&& cell.len() <= width(rows, column)
            &&& text.subrange(before.len() as int, (before.len() + cell.len()) as int) == cell
        }),
{
    let cell = rows[i][column];
    columns_fit_their_cells(rows, column);
    assert(rows[i][column] == cell);
    padding_keeps_the_text(cell, width(rows, column));
    let padded = space_padded(cell, width(rows, column));
    assert(padded.subrange(0, cell.len() as int) == cell);
    assert((before + padded + gap).subrange(before.len() as int, (before.len() + cell.len()) as int) =~= padded.subrange(
        0,
        cell.len() as int,
    ));
}

/// Every column starts at the same place in each line, behind those before it and two spaces each, and its
/// cells stand there in full.
pub proof fn columns_are_aligned(rows: Seq<Seq<Seq<char>>>, i: int)
    requires
        0 <= i < rows.len(),
    ensures
        ({
            let text = line(rows, i);
            let second = width(rows, 0) + 2;
            let third = second + width(rows, 1) + 2;
            let fourth = third + width(rows, 2) + 2;
            let fifth = fourth + width(rows, 3) + 2;
            let sixth = fifth + width(rows, 4) + 2;
            &&& text.len() == sixth + rows[i][5].len()
            &&& text.subrange(0, rows[i][0].len() as int) == rows[i][0]
            &&& text.subrange(second as int, (second + rows[i][1].len()) as int) == rows[i][1]
            &&& text.subrange(third as int, (third + rows[i][2].len()) as int) == rows[i][2]
            &&& text.subrange(fourth as int, (fourth + rows[i][3].len()) as int) == rows[i][3]
            &&& text.subrange(fifth as int, (fifth + rows[i][4].len()) as int) == rows[i][4]
            &&& text.skip(sixth as int) == rows[i][5]
        }),
{
    reveal_strlit("  ");
    let gap = "  "@;
    assert(gap.len() == 2);
    let row = rows[i];
    let none = Seq::<char>::empty();
    let first = none + space_padded(row[0], width(rows, 0)) + gap;
    let second = first + space_padded(row[1], width(rows, 1)) + gap;
    let third = second + space_padded(row[2], width(rows, 2)) + gap;
    let fourth = third + space_padded(row[3], width(rows, 3)) + gap;
    let fifth = fourth + space_padded(row[4], width(rows, 4)) + gap;
    assert(none + space_padded(row[0], width(rows, 0)) =~= space_padded(row[0], width(rows, 0)));
    assert(line(rows, i) == fifth + row[5]);
    a_cell_stands(rows, i, 0, none, gap);
    a_cell_stands(rows, i, 1, first, gap);
    a_cell_stands(rows, i, 2, second, gap);
    a_cell_stands(rows, i, 3, third, gap);
    a_cell_stands(rows, i, 4, fourth, gap);
    a_part_stays(fifth, row[5], fourth.len() as int, (fourth.len() + row[4].len()) as int);
    a_part_stays(fourth, space_padded(row[4], width(rows, 4)) + gap, third.len() as int, (third.len() + row[3].len()) as int);
    a_part_stays(third, space_padded(row[3], width(rows, 3)) + gap, second.len() as int, (second.len() + row[2].len()) as int);
    a_part_stays(second, space_padded(row[2], width(rows, 2)) + gap, first.len() as int, (first.len() + row[1].len()) as int);
    a_part_stays(first, space_padded(row[1], width(rows, 1)) + gap, 0, row[0].len() as int);
    lines_grow(first, space_padded(row[1], width(rows, 1)), gap);
    lines_grow(second, space_padded(row[2], width(rows, 2)), gap);
    lines_grow(third, space_padded(row[3], width(rows, 3)), gap);
    lines_grow(fourth, space_padded(row[4], width(rows, 4)), gap);
    a_part_stays(second, space_padded(row[2], width(rows, 2)) + gap, 0, row[0].len() as int);
    a_part_stays(third, space_padded(row[3], width(rows, 3)) + gap, 0, row[0].len() as int);
    a_part_stays(third, space_padded(row[3], width(rows, 3)) + gap, first.len() as int, (first.len() + row[1].len()) as int);
    a_part_stays(fourth, space_padded(row[4], width(rows, 4)) + gap, 0, row[0].len() as int);
    a_part_stays(fourth, space_padded(row[4], width(rows, 4)) + gap, first.len() as int, (first.len() + row[1].len()) as int);
    a_part_stays(fourth, space_padded(row[4], width(rows, 4)) + gap, second.len() as int, (second.len() + row[2].len()) as int);
    a_part_stays(fifth, row[5], 0, row[0].len() as int);
    a_part_stays(fifth, row[5], first.len() as int, (first.len() + row[1].len()) as int);
    a_part_stays(fifth, row[5], second.len() as int, (second.len() + row[2].len()) as int);
    a_part_stays(fifth, row[5], third.len() as int, (third.len() + row[3].len()) as int);
    assert((fifth + row[5]).skip(fifth.len() as int) =~= row[5]);
}

/// The row of a secret is the one behind the titles and the secrets before it, and tells its label, its
/// version, its size, its status, its source and its time under the titles for them.
pub proof fn rows_tell_the_secrets(secrets: Seq<Listed>, i: int)
    requires
        0 <= i < secrets.len(),
    ensures
        rows(secrets).len() == secrets.len() + 1,
        rows(secrets)[0].len() == 6,
        rows(secrets)[i + 1].len() == 6,
        rows(secrets)[0][0] == "LABEL"@ && rows(secrets)[i + 1][0] == secrets[i].label@,
        rows(secrets)[0][1] == "VERSION"@ && rows(secrets)[i + 1][1] == decimal(secrets[i].version as nat),
        rows(secrets)[0][2] == "BYTES"@ && rows(secrets)[i + 1][2] == decimal(secrets[i].bytes as nat),
        rows(secrets)[0][3] == "STATUS"@ && rows(secrets)[i + 1][3] == secrets[i].status@,
        rows(secrets)[0][4] == "ENTROPY"@,
        secrets[i].entropy_mode matches Some(mode) ==> rows(secrets)[i + 1][4] == mode@,
        secrets[i].entropy_mode is None ==> rows(secrets)[i + 1][4] == "-"@,
        rows(secrets)[0][5] == "CREATED (UTC)"@,
        secrets[i].created_at matches Some(seconds) ==> rows(secrets)[i + 1][5] == utc_text(seconds as int),
        secrets[i].created_at is None ==> rows(secrets)[i + 1][5] == "-"@,
{
}

} // verus!
