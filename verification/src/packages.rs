//! The columns that the packages of a simulation step produce, in the order of the schema.

use vstd::prelude::*;
use vstd::string::*;
use crate::query::texts_view;
use crate::text::str_eq;

verus! {

/// The position of the last of the first `count` keys that is `name`; `-1` where none of
/// them is. Where several columns come under one key, the one produced last counts.
pub open spec fn last_under(keys: Seq<Seq<char>>, name: Seq<char>, count: int) -> int
    decreases count,
{
    if count <= 0 {
        -1
    } else if keys[count - 1] == name {
        count - 1
    } else {
        last_under(keys, name, count - 1)
    }
}

/// The columns for the first `count` fields of a schema, each by its position among the
/// produced columns; the name of the first field that has no column where there is one.
pub open spec fn columns_in_order(
    fields: Seq<Seq<char>>,
    keys: Seq<Seq<char>>,
    count: int,
) -> Result<Seq<usize>, Seq<char>>
    decreases count,
{
    if count <= 0 {
        Ok(Seq::empty())
    } else {
        match columns_in_order(fields, keys, count - 1) {
            Err(missing) => Err(missing),
            Ok(columns) => {
                let position = last_under(keys, fields[count - 1], keys.len() as int);
                if position < 0 {
                    Err(fields[count - 1])
                } else {
                    Ok(columns.push(position as usize))
                }
            },
        }
    }
}

/// The position of the column that was produced last under the key `name`, if there is one.
pub fn find_column(keys: &Vec<String>, name: &str) -> (position: Option<usize>)
    ensures
        position == if last_under(texts_view(keys@), name@, keys@.len() as int) < 0 {
            None::<usize>
        } else {
            Some(last_under(texts_view(keys@), name@, keys@.len() as int) as usize)
        },
{
    let ghost all = texts_view(keys@);
    let mut count: usize = keys.len();
    while count > 0
        invariant
            count <= keys.len(),
            all == texts_view(keys@),
            last_under(all, name@, keys@.len() as int) == last_under(all, name@, count as int),
        decreases count,
    {
        assert(all[count - 1] == keys@[count - 1]@);
        if str_eq(keys[count - 1].as_str(), name) {
            return Some(count - 1);
        }
        count -= 1;
    }
    None
}

/// What the outcome of ordering holds, as plain values.
pub open spec fn ordering_view(res: Result<Vec<usize>, String>) -> Result<Seq<usize>, Seq<char>> {
    match res {
        Ok(columns) => Ok(columns@),
        Err(missing) => Err(missing@),
    }
}

/// Puts the columns that the packages produced into the order of the schema: for each
/// field of the schema the position, among the produced columns, of the column under the
/// field's name. A field without a column is an error, which names the field.
pub fn order_columns(fields: &Vec<String>, keys: &Vec<String>) -> (res: Result<Vec<usize>, String>)
    ensures
        ordering_view(res) == columns_in_order(
            texts_view(fields@),
            texts_view(keys@),
            fields@.len() as int,
        ),
{
    let mut columns: Vec<usize> = Vec::new();
    let mut i: usize = 0;
    while i < fields.len()
        invariant
            i <= fields.len(),
            columns_in_order(texts_view(fields@), texts_view(keys@), i as int) == Ok::<
                Seq<usize>,
                Seq<char>,
            >(columns@),
        decreases fields.len() - i,
    {
        assert(texts_view(fields@)[i as int] == fields@[i as int]@);
        match find_column(keys, fields[i].as_str()) {
            Some(position) => {
                columns.push(position);
            },
            None => {
                let missing = fields[i].clone();
                proof {
                    lemma_missing_stays(
                        texts_view(fields@),
                        texts_view(keys@),
                        i + 1,
                        fields@.len() as int,
                    );
                }
                return Err(missing);
            },
        }
        i += 1;
    }
    Ok(columns)
}

/// Once a field has no column, the fields behind it do not change what is missing.
pub proof fn lemma_missing_stays(
    fields: Seq<Seq<char>>,
    keys: Seq<Seq<char>>,
    count: int,
    more: int,
)
    requires
        0 <= count <= more,
        columns_in_order(fields, keys, count) is Err,
    ensures
        columns_in_order(fields, keys, more) == columns_in_order(fields, keys, count),
    decreases more - count,
{
    if count < more {
        lemma_missing_stays(fields, keys, count, more - 1);
    }
}

} // verus!
