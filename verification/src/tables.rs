//! Lists cut into rows, and rows joined into lists.

use vstd::prelude::*;

verus! {

/// A list cut into rows of the given length; the last row holds what is left.
pub open spec fn chunks<T>(data: Seq<T>, cols: nat) -> Seq<Seq<T>>
    decreases data.len(),
{
    if data.len() == 0 || cols == 0 {
        Seq::empty()
    } else if data.len() <= cols {
        seq![data]
    } else {
        seq![data.take(cols as int)] + chunks(data.skip(cols as int), cols)
    }
}

/// The rows of a table as sequences.
pub open spec fn rows_of<T>(table: Seq<Vec<T>>) -> Seq<Seq<T>> {
    table.map_values(|row: Vec<T>| row@)
}

/// Rows joined into one list.
pub open spec fn joined<T>(rows: Seq<Seq<T>>) -> Seq<T>
    decreases rows.len(),
{
    if rows.len() == 0 {
        Seq::empty()
    } else {
        joined(rows.drop_last()) + rows.last()
    }
}

/// Cuts a list into rows of the given length.
pub fn reshape_rows<T: Copy>(data: Vec<T>, cols: usize) -> (rows: Vec<Vec<T>>)
    requires
        cols > 0,
    ensures
        rows_of(rows@) == chunks(data@, cols as nat),
{
    let mut rows: Vec<Vec<T>> = Vec::new();
    let mut start: usize = 0;
    assert(data@.skip(0) =~= data@);
    assert(rows_of(rows@) + chunks(data@, cols as nat) =~= chunks(data@, cols as nat));
    while start < data.len()
        invariant
            cols > 0,
            start <= data@.len(),
            rows_of(rows@) + chunks(data@.skip(start as int), cols as nat) == chunks(
                data@,
                cols as nat,
            ),
        decreases data.len() - start,
    {
        let end: usize = if data.len() - start <= cols {
            data.len()
        } else {
            start + cols
        };
        let mut row: Vec<T> = Vec::new();
        let mut i: usize = start;
        while i < end
            invariant
                start <= i <= end <= data@.len(),
                row@ == data@.subrange(start as int, i as int),
            decreases end - i,
        {
            row.push(data[i]);
            i = i + 1;
        }
        let ghost before = rows@;
        let ghost rest = data@.skip(start as int);
        rows.push(row);
        proof {
            assert(rows_of(rows@) =~= rows_of(before).push(row@));
            assert(row@ =~= rest.take(end - start));
            assert(data@.skip(end as int) =~= rest.skip(end - start));
            if rest.len() <= cols {
                assert(rest.take(end - start) =~= rest);
            }
            assert(rows_of(before) + chunks(rest, cols as nat) =~= rows_of(rows@) + chunks(
                data@.skip(end as int),
                cols as nat,
            ));
        }
        start = end;
    }
    assert(rows_of(rows@) + chunks(data@.skip(start as int), cols as nat) =~= rows_of(rows@));
    rows
}

/// Joins rows into one list.
pub fn flatten_2d<T: Copy>(matrix: Vec<Vec<T>>) -> (flat: Vec<T>)
    ensures
        flat@ == joined(rows_of(matrix@)),
{
    let mut flat: Vec<T> = Vec::new();
    let mut done: usize = 0;
    while done < matrix.len()
        invariant
            done <= matrix@.len(),
            flat@ == joined(rows_of(matrix@).take(done as int)),
        decreases matrix.len() - done,
    {
        let row: &Vec<T> = &matrix[done];
        let ghost before = flat@;
        let mut i: usize = 0;
        while i < row.len()
            invariant
                i <= row@.len(),
                flat@ == before + row@.take(i as int),
            decreases row.len() - i,
        {
            flat.push(row[i]);
            i = i + 1;
        }
        proof {
            let rows = rows_of(matrix@);
            assert(rows.take(done + 1).drop_last() =~= rows.take(done as int));
            assert(rows.take(done + 1).last() == row@);
            assert(row@.take(i as int) =~= row@);
        }
        done = done + 1;
    }
    assert(rows_of(matrix@).take(done as int) =~= rows_of(matrix@));
    flat
}

/// Joining goes through the rows in order.
proof fn lemma_joined_first<T>(first: Seq<T>, rest: Seq<Seq<T>>)
    ensures
        joined(seq![first] + rest) == first + joined(rest),
    decreases rest.len(),
{
    let rows = seq![first] + rest;
    if rest.len() == 0 {
        assert(rows.drop_last() =~= Seq::empty());
        assert(joined(rows.drop_last()) =~= Seq::empty());
        assert(rows.last() == first);
        assert(joined(rows) =~= first);
        assert(first + joined(rest) =~= first);
    } else {
        assert(rows.drop_last() =~= seq![first] + rest.drop_last());
        lemma_joined_first(first, rest.drop_last());
        assert(joined(rows) =~= first + joined(rest));
    }
}

/// Joining the rows of a list gives the list back.
pub proof fn joining_undoes_cutting<T>(data: Seq<T>, cols: nat)
    requires
        cols > 0,
    ensures
        joined(chunks(data, cols)) == data,
    decreases data.len(),
{
    if data.len() == 0 {
        assert(joined(chunks(data, cols)) =~= data);
    } else if data.len() <= cols {
        lemma_joined_first(data, Seq::empty());
        assert(seq![data] + Seq::<Seq<T>>::empty() =~= seq![data]);
        assert(joined(chunks(data, cols)) =~= data);
    } else {
        let rest = data.skip(cols as int);
        joining_undoes_cutting(rest, cols);
        lemma_joined_first(data.take(cols as int), chunks(rest, cols));
        assert(data.take(cols as int) + rest =~= data);
    }
}

/// A list of whole rows is cut into rows of the given length.
pub proof fn rows_are_full<T>(data: Seq<T>, cols: nat, rows: nat)
    requires
        cols > 0,
        data.len() == rows * cols,
    ensures
        chunks(data, cols).len() == rows,
        forall|i: int| #![trigger chunks(data, cols)[i]]
            0 <= i < rows ==> chunks(data, cols)[i] == data.subrange(i * cols, (i + 1) * cols),
    decreases rows,
{
    if rows == 0 {
    } else if rows == 1 {
        assert(rows * cols == cols) by (nonlinear_arith)
            requires
                rows == 1,
        ;
        assert(0 * cols == 0 && (0 + 1) * cols == cols) by (nonlinear_arith);
        assert(data.subrange(0, cols as int) =~= data);
    } else {
        let rest = data.skip(cols as int);
        assert((rows - 1) * cols == rows * cols - cols) by (nonlinear_arith);
        assert(rows * cols > cols) by (nonlinear_arith)
            requires
                rows >= 2,
                cols > 0,
        ;
        rows_are_full(rest, cols, (rows - 1) as nat);
        assert forall|i: int| #![trigger chunks(data, cols)[i]] 0 <= i < rows implies chunks(
            data,
            cols,
        )[i] == data.subrange(i * cols, (i + 1) * cols) by {
            if i == 0 {
                assert(i * cols == 0 && (i + 1) * cols == cols) by (nonlinear_arith)
                    requires
                        i == 0,
                ;
                assert(data.subrange(0, cols as int) =~= data.take(cols as int));
            } else {
                assert(chunks(data, cols)[i] == chunks(rest, cols)[i - 1]);
                assert((i - 1) * cols + cols == i * cols) by (nonlinear_arith);
                assert(i * cols + cols == (i + 1) * cols) by (nonlinear_arith);
                assert(0 <= (i - 1) * cols) by (nonlinear_arith)
                    requires
                        i >= 1,
                        cols > 0,
                ;
                assert((i + 1) * cols <= rows * cols) by (nonlinear_arith)
                    requires
                        i + 1 <= rows,
                        cols > 0,
                ;
                assert(rest.subrange((i - 1) * cols, i * cols) =~= data.subrange(
                    i * cols,
                    (i + 1) * cols,
                ));
            }
        }
    }
}

/// Joining puts rows one after the other.
pub proof fn rows_are_joined_in_order<T>(a: Seq<Seq<T>>, b: Seq<Seq<T>>, row: Seq<T>)
    ensures
        joined(seq![row]) == row,
        joined(a + b) == joined(a) + joined(b),
    decreases b.len(),
{
    lemma_joined_first(row, Seq::empty());
    assert(seq![row] + Seq::<Seq<T>>::empty() =~= seq![row]);
    assert(joined(seq![row]) =~= row);
    if b.len() == 0 {
        assert(a + b =~= a);
        assert(joined(a) + joined(b) =~= joined(a));
    } else {
        assert((a + b).drop_last() =~= a + b.drop_last());
        rows_are_joined_in_order(a, b.drop_last(), row);
        assert(joined(a + b) =~= joined(a) + joined(b));
    }
}

/// Every row of a cut list has the given length but the last, which has at least one element and
/// no more than that.
pub proof fn rows_have_the_given_length<T>(data: Seq<T>, cols: nat, i: int)
    requires
        cols > 0,
        0 <= i < chunks(data, cols).len(),
    ensures
        i < chunks(data, cols).len() - 1 ==> chunks(data, cols)[i].len() == cols,
        0 < chunks(data, cols)[i].len() <= cols,
    decreases data.len(),
{
    if data.len() > cols {
        let rest = data.skip(cols as int);
        assert(chunks(data, cols).len() == chunks(rest, cols).len() + 1);
        if i > 0 {
            rows_have_the_given_length(rest, cols, i - 1);
            assert(chunks(data, cols)[i] == chunks(rest, cols)[i - 1]);
        }
    }
}

} // verus!
