//! The rows that are stored and the text of the statements that store them.

use vstd::prelude::*;
use crate::decimal::{decimal, push_decimal};

pub mod activities;
pub mod balance_changes;

verus! {

/// A type that knows how many fields it has: a stored row has a column for
/// each.
pub trait FieldCount {
    /// The number of fields.
    spec fn spec_field_count() -> nat;

    /// Get the number of fields on a struct.
    fn field_count() -> (count: usize)
        ensures
            count == Self::spec_field_count(),
    ;
}

/// Why no statement can be written.
#[derive(Clone, Copy, Debug, PartialEq, Eq, Structural)]
pub enum QueryError {
    /// A statement has to store at least one row.
    NoItems,
    /// A row has to have at least one field.
    NoFields,
}

impl QueryError {
    /// The error in words.
    pub open spec fn spec_message(self) -> Seq<char> {
        match self {
            QueryError::NoItems => "At least 1 item expected"@,
            QueryError::NoFields => "At least 1 field expected"@,
        }
    }

    pub fn message(&self) -> (text: &'static str)
        ensures
            text@ == self.spec_message(),
    {
        match self {
            QueryError::NoItems => "At least 1 item expected",
            QueryError::NoFields => "At least 1 field expected",
        }
    }
}

/// The numbered parameters `$start`, `$start + 1` and so on, `count` of
/// them, with a comma and a blank between two.
pub open spec fn parameters(start: nat, count: nat) -> Seq<char>
    decreases count,
{
    if count == 0 {
        Seq::empty()
    } else if count == 1 {
        seq!['$'] + decimal(start)
    } else {
        parameters(start, (count - 1) as nat) + seq![',', ' ', '$'] + decimal(
            (start + count - 1) as nat,
        )
    }
}

/// The placeholder of one row: its parameters in round brackets, as in
/// `($1, $2, $3)`.
pub open spec fn placeholder(start: nat, fields_count: nat) -> Seq<char> {
    seq!['('] + parameters(start, fields_count) + seq![')']
}

/// The placeholders of `items_count` rows with parameters numbered from 1
/// on, with a comma and a blank between two, as in `($1, $2), ($3, $4)`.
pub open spec fn placeholders(items_count: nat, fields_count: nat) -> Seq<char>
    decreases items_count,
{
    if items_count == 0 {
        Seq::empty()
    } else if items_count == 1 {
        placeholder(1, fields_count)
    } else {
        placeholders((items_count - 1) as nat, fields_count) + seq![',', ' '] + placeholder(
            (1 + (items_count - 1) * fields_count) as nat,
            fields_count,
        )
    }
}

/// The statement that `query` becomes for `items_count` rows of
/// `fields_count` fields each: a blank and the rows' placeholders follow it.
pub open spec fn query_with_placeholders(
    query: Seq<char>,
    items_count: nat,
    fields_count: nat,
) -> Result<Seq<char>, QueryError> {
    if items_count < 1 {
        Err(QueryError::NoItems)
    } else if fields_count < 1 {
        Err(QueryError::NoFields)
    } else {
        Ok(query + seq![' '] + placeholders(items_count, fields_count))
    }
}

/// What a result of a text stands for.
pub open spec fn text_view(text: Result<String, QueryError>) -> Result<Seq<char>, QueryError> {
    match text {
        Ok(text) => Ok(text@),
        Err(error) => Err(error),
    }
}

/// Writes the placeholder of one row of `fields_count` fields, whose
/// parameters are numbered from `start_num` on, and moves `start_num` past
/// them. Generates `($1, $2, $3)`.
pub fn create_placeholder(start_num: &mut usize, fields_count: usize) -> (result: Result<
    String,
    QueryError,
>)
    requires
        *old(start_num) + fields_count <= usize::MAX,
    ensures
        text_view(result) == if fields_count < 1 {
            Err::<Seq<char>, QueryError>(QueryError::NoFields)
        } else {
            Ok(placeholder(*old(start_num) as nat, fields_count as nat))
        },
        *final(start_num) == *old(start_num) + fields_count,
{
    if fields_count < 1 {
        return Err(QueryError::NoFields);
    }
    let ghost start = *start_num as nat;
    proof {
        reveal_strlit("($");
        reveal_strlit(", $");
        reveal_strlit(")");
    }
    let mut item = "($".to_string();
    push_decimal(&mut item, *start_num as u128);
    *start_num = *start_num + 1;
    let mut done: usize = 1;
    assert(item@ =~= seq!['('] + parameters(start, 1));
    while done < fields_count
        invariant
            1 <= done <= fields_count,
            start + fields_count <= usize::MAX,
            *start_num == start + done,
            item@ == seq!['('] + parameters(start, done as nat),
        decreases fields_count - done,
    {
        let ghost before = item@;
        item.append(", $");
        push_decimal(&mut item, *start_num as u128);
        *start_num = *start_num + 1;
        done = done + 1;
        proof {
            reveal_strlit(", $");
            assert(", $"@ =~= seq![',', ' ', '$']);
            assert(item@ =~= seq!['('] + parameters(start, done as nat));
        }
    }
    item.append(")");
    proof {
        assert(")"@ =~= seq![')']);
    }
    Ok(item)
}

/// Writes the statement that stores `items_count` rows of `fields_count`
/// fields each. Generates `INSERT INTO table VALUES ($1, $2), ($3, $4)`.
pub fn create_query_with_placeholders(
    query: &str,
    items_count: usize,
    fields_count: usize,
) -> (result: Result<String, QueryError>)
    requires
        items_count * fields_count < usize::MAX,
    ensures
        text_view(result) == query_with_placeholders(
            query@,
            items_count as nat,
            fields_count as nat,
        ),
{
    if items_count < 1 {
        return Err(QueryError::NoItems);
    }
    proof {
        assert(1 * fields_count <= items_count * fields_count) by (nonlinear_arith)
            requires
                1 <= items_count,
        ;
    }
    let mut start_num: usize = 1;
    let placeholder = create_placeholder(&mut start_num, fields_count)?;
    let mut res = query.to_string();
    proof {
        reveal_strlit(" ");
        reveal_strlit(", ");
        assert(" "@ =~= seq![' ']);
        assert(", "@ =~= seq![',', ' ']);
    }
    res.append(" ");
    res.append(placeholder.as_str());
    let mut done: usize = 1;
    assert(res@ =~= query@ + seq![' '] + placeholders(1, fields_count as nat));
    while done < items_count
        invariant
            1 <= done <= items_count,
            1 <= fields_count,
            items_count * fields_count < usize::MAX,
            start_num == 1 + done * fields_count,
            res@ == query@ + seq![' '] + placeholders(done as nat, fields_count as nat),
            ", "@ == seq![',', ' '],
        decreases items_count - done,
    {
        proof {
            assert((done + 1) * fields_count <= items_count * fields_count) by (nonlinear_arith)
                requires
                    done + 1 <= items_count,
            ;
            assert((done + 1) * fields_count == done * fields_count + fields_count)
                by (nonlinear_arith);
        }
        let placeholder = match create_placeholder(&mut start_num, fields_count) {
            Ok(placeholder) => placeholder,
            Err(error) => {
                return Err(error);
            },
        };
        res.append(", ");
        res.append(placeholder.as_str());
        done = done + 1;
        proof {
            assert(res@ =~= query@ + seq![' '] + placeholders(done as nat, fields_count as nat));
        }
    }
    Ok(res)
}

/// The number of rows that one statement stores at most.
pub const CHUNK_SIZE_FOR_BATCH_INSERT: usize = 100;

/// The statement that stores rows in a table, up to its placeholders.
pub open spec fn insert_into(table: Seq<char>) -> Seq<char> {
    "INSERT INTO "@ + table + " VALUES"@
}

/// Writes the statement that stores rows in a table, up to its
/// placeholders.
pub fn insert_statement(table: &str) -> (statement: String)
    ensures
        statement@ == insert_into(table@),
{
    let mut statement = "INSERT INTO ".to_string();
    statement.append(table);
    statement.append(" VALUES");
    statement
}

/// A row that can be stored: it knows its table and the statement that
/// stores a number of rows like it. Binding the values of a row to the
/// statement's parameters is left to the code that talks to the database.
pub trait SqlxMethods {
    /// The table that the rows are stored in.
    spec fn table() -> Seq<char>;

    /// The number of columns of that table.
    spec fn columns() -> nat;

    /// The statement that stores `count` rows.
    fn insert_query(count: usize) -> (query: Result<String, QueryError>)
        requires
            count * Self::columns() < usize::MAX,
        ensures
            text_view(query) == query_with_placeholders(
                insert_into(Self::table()),
                count as nat,
                Self::columns(),
            ),
    ;

    /// The name of the table.
    fn name() -> (name: String)
        ensures
            name@ == Self::table(),
    ;
}

/// The rows that one statement stores: those from `start` up to `end`,
/// which is left out, and the statement's text.
#[derive(Clone, Debug, PartialEq, Eq)]
pub struct InsertBatch {
    pub start: usize,
    pub end: usize,
    pub query: String,
}

/// What an [`InsertBatch`] stands for.
pub struct InsertBatchView {
    pub start: usize,
    pub end: usize,
    pub query: Seq<char>,
}

impl View for InsertBatch {
    type V = InsertBatchView;

    open spec fn view(&self) -> InsertBatchView {
        InsertBatchView { start: self.start, end: self.end, query: self.query@ }
    }
}

/// The number of statements that store `items_count` rows.
pub open spec fn batch_count(items_count: nat) -> nat {
    (items_count + CHUNK_SIZE_FOR_BATCH_INSERT - 1) as nat / (CHUNK_SIZE_FOR_BATCH_INSERT as nat)
}

/// Whether `batch` is the batch at `index` of `items_count` rows: the
/// batches take the rows in order, a full chunk each but for the last, and
/// each has the statement for the number of its rows.
pub open spec fn is_batch(
    batch: InsertBatchView,
    index: int,
    items_count: nat,
    table: Seq<char>,
    columns: nat,
) -> bool {
    &&& batch.start == index * CHUNK_SIZE_FOR_BATCH_INSERT
    &&& batch.end == if items_count < (index + 1) * CHUNK_SIZE_FOR_BATCH_INSERT {
        items_count as int
    } else {
        (index + 1) * CHUNK_SIZE_FOR_BATCH_INSERT
    }
    &&& query_with_placeholders(insert_into(table), (batch.end - batch.start) as nat, columns)
        == Ok::<Seq<char>, QueryError>(batch.query)
}

/// Splits the storing of `items` into statements of at most
/// [`CHUNK_SIZE_FOR_BATCH_INSERT`] rows each. Nothing has to be stored for
/// no rows; rows without fields cannot be stored.
pub fn chunked_insert<T: SqlxMethods>(items: &[T]) -> (result: Result<Vec<InsertBatch>, QueryError>)
    requires
        CHUNK_SIZE_FOR_BATCH_INSERT * T::columns() < usize::MAX,
    ensures
        match result {
            Ok(batches) => {
                &&& items@.len() == 0 || T::columns() >= 1
                &&& batches.len() == batch_count(items@.len())
                &&& forall|k: int|
                    0 <= k < batches.len() ==> is_batch(
                        (#[trigger] batches[k])@,
                        k,
                        items@.len(),
                        T::table(),
                        T::columns(),
                    )
            },
            Err(error) => items@.len() > 0 && T::columns() == 0 && error == QueryError::NoFields,
        },
{
    let len = items.len();
    let mut batches: Vec<InsertBatch> = Vec::new();
    let mut start: usize = 0;
    while start < len
        invariant
            len == items@.len(),
            start <= len,
            CHUNK_SIZE_FOR_BATCH_INSERT * T::columns() < usize::MAX,
            start < len ==> start == batches.len() * CHUNK_SIZE_FOR_BATCH_INSERT,
            batches.len() == batch_count(start as nat),
            start > 0 ==> T::columns() >= 1,
            forall|k: int|
                0 <= k < batches.len() ==> is_batch(
                    (#[trigger] batches[k])@,
                    k,
                    items@.len(),
                    T::table(),
                    T::columns(),
                ),
        decreases len - start,
    {
        let end = if len - start > CHUNK_SIZE_FOR_BATCH_INSERT {
            start + CHUNK_SIZE_FOR_BATCH_INSERT
        } else {
            len
        };
        proof {
            assert((end - start) * T::columns() <= CHUNK_SIZE_FOR_BATCH_INSERT * T::columns())
                by (nonlinear_arith)
                requires
                    end - start <= CHUNK_SIZE_FOR_BATCH_INSERT,
            ;
        }
        let query = match T::insert_query(end - start) {
            Ok(query) => query,
            Err(error) => {
                return Err(error);
            },
        };
        batches.push(InsertBatch { start, end, query });
        start = end;
    }
    Ok(batches)
}

} // verus!
