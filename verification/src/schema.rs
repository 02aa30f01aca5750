//! Output schemas and the query they belong to.

use std::collections::HashMap;

use vstd::prelude::*;

use crate::bytes::views;
use crate::datatypes::{law_every_datatype_is_listed_once, Datatype};
use crate::error::{CollectError, R};
use crate::text::snake_case;

verus! {

/// Schema of one dataset: the columns that are stored.
#[derive(Debug)]
pub struct Table {
    /// names of the stored columns
    pub columns: Vec<String>,
}

impl View for Table {
    type V = Seq<Seq<char>>;

    /// A schema is modelled by the names of its columns.
    open spec fn view(&self) -> Seq<Seq<char>> {
        views(self.columns@)
    }
}

impl Table {
    /// Whether the column is stored.
    pub fn has_column(&self, name: &str) -> (stored: bool)
        ensures
            stored == self@.contains(name@),
    {
        let wanted: String = name.to_owned();
        let mut i: usize = 0;
        while i < self.columns.len()
            invariant
                i <= self.columns@.len(),
                wanted@ == name@,
                forall|j: int| 0 <= j < i ==> self.columns@[j]@ != name@,
            decreases self.columns@.len() - i,
        {
            if self.columns[i] == wanted {
                assert(self@[i as int] == name@);
                return true;
            }
            i += 1;
        }
        assert(!self@.contains(name@));
        false
    }
}

/// A column after `added` were offered to it: it takes them if the schema has it.
pub open spec fn stored<T>(
    schema: Seq<Seq<char>>,
    name: Seq<char>,
    column: Seq<T>,
    added: Seq<T>,
) -> Seq<T> {
    if schema.contains(name) {
        column + added
    } else {
        column
    }
}

/// How many entries a column has after `rows` rows: one each if the schema has it.
pub open spec fn entries(schema: Seq<Seq<char>>, name: Seq<char>, rows: nat) -> nat {
    if schema.contains(name) {
        rows
    } else {
        0
    }
}

pub broadcast proof fn lemma_stored_one<T>(
    schema: Seq<Seq<char>>,
    name: Seq<char>,
    column: Seq<T>,
    value: T,
)
    ensures
        #[trigger] stored(schema, name, column, seq![value]) == (if schema.contains(name) {
            column.push(value)
        } else {
            column
        }),
{
    assert(column + seq![value] =~= column.push(value));
}

/// Stores a value if the schema has the column.
pub fn store<T>(schema: &Table, name: &str, column: &mut Vec<T>, value: T)
    ensures
        final(column)@ == (if schema@.contains(name@) {
            old(column)@.push(value)
        } else {
            old(column)@
        }),
{
    if schema.has_column(name) {
        column.push(value);
    }
}

/// The schemas of the requested datasets.
#[derive(Debug)]
pub struct Schemas {
    /// schema of each requested dataset, by the position of the datatype
    tables: HashMap<u64, Table>,
}

impl View for Schemas {
    type V = Map<Datatype, Table>;

    closed spec fn view(&self) -> Map<Datatype, Table> {
        Map::new(
            |datatype: Datatype| self.tables@.contains_key(datatype.position()),
            |datatype: Datatype| self.tables@[datatype.position()],
        )
    }
}

/// The message about a dataset that was not requested.
pub open spec fn missing_schema(datatype: Datatype) -> Seq<char> {
    "schema for "@ + snake_case(datatype.identifier_text()) + " missing"@
}

impl Schemas {
    /// No schemas.
    pub fn new() -> (schemas: Schemas)
        ensures
            schemas@ == Map::<Datatype, Table>::empty(),
    {
        broadcast use vstd::std_specs::hash::group_hash_axioms;

        let schemas = Schemas { tables: HashMap::new() };
        assert(schemas@ =~= Map::<Datatype, Table>::empty());
        schemas
    }

    /// Sets the schema of a dataset.
    pub fn insert(&mut self, datatype: Datatype, table: Table)
        ensures
            final(self)@ == old(self)@.insert(datatype, table),
    {
        broadcast use vstd::std_specs::hash::group_hash_axioms;

        self.tables.insert(datatype.index(), table);
        proof {
            assert forall|other: Datatype|
                other.position() == datatype.position() implies other == datatype by {
                law_every_datatype_is_listed_once(other);
                law_every_datatype_is_listed_once(datatype);
            }
        }
        assert(self@ =~= old(self)@.insert(datatype, table));
    }

    /// Whether a dataset is requested.
    pub fn contains_key(&self, datatype: &Datatype) -> (requested: bool)
        ensures
            requested == self@.contains_key(*datatype),
    {
        broadcast use vstd::std_specs::hash::group_hash_axioms;

        self.tables.contains_key(&datatype.index())
    }

    /// The schema of a requested dataset.
    pub fn get_schema(&self, datatype: &Datatype) -> (schema: R<&Table>)
        ensures
            match schema {
                Ok(table) => self@.contains_key(*datatype) && *table == self@[*datatype],
                Err(error) => !self@.contains_key(*datatype) && error@ == missing_schema(*datatype),
            },
    {
        broadcast use vstd::std_specs::hash::group_hash_axioms;

        match self.tables.get(&datatype.index()) {
            Some(table) => Ok(table),
            None => {
                let mut message: String = String::new();
                message.append("schema for ");
                message.append(datatype.name().as_str());
                message.append(" missing");
                assert(message@ =~= missing_schema(*datatype));
                Err(CollectError::CollectError(message))
            },
        }
    }

    /// The requested datasets, in listing order.
    pub fn datatypes(&self) -> (requested: Vec<Datatype>)
        ensures
            requested@ == crate::datatypes::all_datatypes().filter(
                |datatype: Datatype| self@.contains_key(datatype),
            ),
    {
        let all = Datatype::all();
        let mut requested: Vec<Datatype> = Vec::new();
        let ghost keep = |datatype: Datatype| self@.contains_key(datatype);
        let mut i: usize = 0;
        while i < all.len()
            invariant
                i <= all@.len(),
                keep == (|datatype: Datatype| self@.contains_key(datatype)),
                requested@ == all@.take(i as int).filter(keep),
            decreases all@.len() - i,
        {
            let datatype = all[i];
            assert(all@.take(i as int + 1) =~= all@.take(i as int).push(datatype));
            proof {
                crate::seqs::lemma_filter_push(all@.take(i as int), datatype, keep);
            }
            if self.contains_key(&datatype) {
                requested.push(datatype);
            }
            i += 1;
        }
        assert(all@.take(all@.len() as int) =~= all@);
        requested
    }
}

/// What to collect and how.
#[derive(Debug)]
pub struct Query {
    /// schemas of the requested datasets
    pub schemas: Schemas,
    /// whether calls may be batched through Multicall3
    pub multicall: bool,
    /// cap on the calls of one batch, 0 for the default
    pub multicall_batch_size: u32,
    /// whether a reverting call fails its whole batch
    pub multicall_require_success: bool,
}

} // verus!
