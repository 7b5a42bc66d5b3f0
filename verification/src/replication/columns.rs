//! Columns in statements: which ones, and which parameter holds the value of each.

use crate::replication::error::Error;
use crate::replication::queries::PublicationTableColumn;
use crate::text::{concat2, concat3, double_char, join, wide_decimal_text};
#[allow(unused_imports)]
use crate::text::{decimal, doubled, joined, views};
use vstd::prelude::*;
use vstd::string::*;

verus! {

/// The text as an identifier: in double quotes, which are doubled inside.
pub open spec fn identifier(s: Seq<char>) -> Seq<char> {
    "\""@ + doubled(s, '"') + "\""@
}

/// The text as an identifier: in double quotes, which are doubled inside.
pub fn quote_identifier(s: &str) -> (r: String)
    ensures
        r@ == identifier(s@),
{
    concat3("\"", double_char(s, '"').as_str(), "\"")
}

/// Columns with the parameters that hold their values, counted from 0.
pub type Placed = Seq<(int, PublicationTableColumn)>;

/// All columns, each with the parameter of its own position.
pub open spec fn all_placed(columns: Seq<PublicationTableColumn>) -> Placed {
    Seq::new(columns.len(), |i: int| (i, columns[i]))
}

/// The columns that tell rows apart, or the other ones. They keep their parameters.
pub open spec fn of_identity(columns: Placed, identity: bool) -> Placed {
    columns.filter(|c: (int, PublicationTableColumn)| c.1.identity == identity)
}

/// The columns with parameters from 0 on, in sequence.
pub open spec fn renumbered(columns: Placed) -> Placed {
    Seq::new(columns.len(), |i: int| (i, columns[i].1))
}

/// The columns with parameters that come `offset` later.
pub open spec fn shifted(columns: Placed, offset: int) -> Placed {
    Seq::new(columns.len(), |i: int| (columns[i].0 + offset, columns[i].1))
}

/// How many of the columns are not part of what tells rows apart.
pub open spec fn plain_count(columns: Seq<PublicationTableColumn>) -> nat
    decreases columns.len(),
{
    if columns.len() == 0 {
        0
    } else if columns.last().identity {
        plain_count(columns.drop_last())
    } else {
        plain_count(columns.drop_last()) + 1
    }
}

/// The columns that a change gives a value for: those that tell rows apart, and those that are
/// marked.
pub open spec fn present_in(columns: Seq<PublicationTableColumn>, marks: Seq<bool>) -> Seq<
    PublicationTableColumn,
>
    decreases columns.len(),
{
    if columns.len() == 0 {
        Seq::empty()
    } else {
        let before = columns.drop_last();
        let k = plain_count(before);
        if columns.last().identity || (k < marks.len() && marks[k as int]) {
            present_in(before, marks).push(columns.last())
        } else {
            present_in(before, marks)
        }
    }
}

/// What is said of a column in a statement.
#[derive(Clone, Copy, Debug, PartialEq, Eq, Structural)]
pub enum Phrase {
    /// Its name.
    Name,
    /// The parameter with its value.
    Placeholder,
    /// It has the value of the parameter, or gets it.
    Equals,
    /// It has the value of the parameter, or both are null.
    NotDistinct,
}

/// What is said of a column in a statement.
pub open spec fn phrase(what: Phrase, column: (int, PublicationTableColumn)) -> Seq<char> {
    match what {
        Phrase::Name => identifier(column.1.name@),
        Phrase::Placeholder => "$"@ + decimal((column.0 + 1) as nat),
        Phrase::Equals => identifier(column.1.name@) + " = $"@ + decimal((column.0 + 1) as nat),
        Phrase::NotDistinct => identifier(column.1.name@) + " IS NOT DISTINCT FROM $"@ + decimal(
            (column.0 + 1) as nat,
        ),
    }
}

/// What is said of all columns, with a separator between neighbours.
pub open spec fn phrases(what: Phrase, columns: Placed, separator: Seq<char>) -> Seq<char> {
    joined(
        columns.map_values(|c: (int, PublicationTableColumn)| phrase(what, c)),
        separator,
    )
}

/// Which values a change gives for the columns that do not tell rows apart: a value that is stored
/// elsewhere and did not change is not sent.
#[derive(Debug)]
pub struct NonIdentityColumnsPresence {
    /// One mark for each such column.
    pub marks: Vec<bool>,
}

/// The value of a column in a change.
#[derive(Debug)]
pub enum ColumnValue {
    /// Null.
    Null,
    /// Stored elsewhere and not changed.
    Toasted,
    /// This text.
    Text(String),
}

/// The values of a row in a change.
#[derive(Debug)]
pub struct TupleData {
    /// One value for each column.
    pub columns: Vec<ColumnValue>,
}

/// The marks of the values that do not tell rows apart.
pub open spec fn marks_of(columns: Seq<PublicationTableColumn>, values: Seq<ColumnValue>) -> Seq<
    bool,
>
    decreases columns.len(),
{
    if columns.len() == 0 {
        Seq::empty()
    } else {
        let before = marks_of(columns.drop_last(), values);
        if columns.last().identity {
            before
        } else {
            before.push(!(values[columns.len() - 1] is Toasted))
        }
    }
}

impl NonIdentityColumnsPresence {
    /// Some column has a value.
    pub open spec fn some(&self) -> bool {
        exists|i: int| 0 <= i < self.marks@.len() && #[trigger] self.marks@[i]
    }

    /// Every column has a value.
    pub fn all(columns: &Vec<PublicationTableColumn>) -> (r: Self)
        ensures
            r.marks@ == Seq::new(plain_count(columns@), |i: int| true),
    {
        let mut marks: Vec<bool> = Vec::new();
        assert(columns@.take(0) == Seq::<PublicationTableColumn>::empty());
        for i in 0..columns.len()
            invariant
                marks@ == Seq::new(plain_count(columns@.take(i as int)), |k: int| true),
        {
            assert(columns@.take(i + 1).drop_last() == columns@.take(i as int));
            if !columns[i].identity {
                marks.push(true);
            }
        }
        assert(columns@.take(columns@.len() as int) == columns@);
        NonIdentityColumnsPresence { marks }
    }

    /// The columns that a row gives a value for. The row has to have all columns of the table.
    pub fn from_tuple(tuple: &TupleData, columns: &Vec<PublicationTableColumn>) -> (r: Result<
        Self,
        Error,
    >)
        ensures
            match r {
                Ok(p) => tuple.columns@.len() == columns@.len() && p.marks@ == marks_of(
                    columns@,
                    tuple.columns@,
                ),
                Err(e) => tuple.columns@.len() != columns@.len() && e == Error::ColumnCount(
                    columns.len(),
                    tuple.columns.len(),
                ),
            },
    {
        if tuple.columns.len() != columns.len() {
            return Err(Error::ColumnCount(columns.len(), tuple.columns.len()));
        }
        let mut marks: Vec<bool> = Vec::new();
        assert(columns@.take(0) == Seq::<PublicationTableColumn>::empty());
        for i in 0..columns.len()
            invariant
                tuple.columns@.len() == columns@.len(),
                marks@ == marks_of(columns@.take(i as int), tuple.columns@),
        {
            assert(columns@.take(i + 1).drop_last() == columns@.take(i as int));
            if !columns[i].identity {
                let present = match &tuple.columns[i] {
                    ColumnValue::Toasted => false,
                    _ => true,
                };
                marks.push(present);
            }
        }
        assert(columns@.take(columns@.len() as int) == columns@);
        Ok(NonIdentityColumnsPresence { marks })
    }

    /// The column with this number, among those that do not tell rows apart, has a value.
    pub fn is_set(&self, i: usize) -> (r: bool)
        ensures
            r == (i < self.marks@.len() && self.marks@[i as int]),
    {
        i < self.marks.len() && self.marks[i]
    }

    /// No column has a value.
    pub fn no_non_identity_present(&self) -> (r: bool)
        ensures
            r == !self.some(),
    {
        for i in 0..self.marks.len()
            invariant
                forall|k: int| 0 <= k < i ==> !#[trigger] self.marks@[k],
        {
            if self.marks[i] {
                assert(self.marks@[i as int]);
                return false;
            }
        }
        true
    }
}

/// Some columns of a table, with the parameters that hold their values.
#[derive(Debug)]
pub struct Columns<'a> {
    /// All columns of the table.
    pub columns: &'a Vec<PublicationTableColumn>,
    /// Parameters and positions of the columns.
    pub items: Vec<(u128, usize)>,
}

impl<'a> Columns<'a> {
    /// Positions are those of columns, and parameters are small enough to be counted.
    pub open spec fn wf(&self) -> bool {
        forall|i: int|
            0 <= i < self.items@.len() ==> (#[trigger] self.items@[i]).1 < self.columns@.len()
                && self.items@[i].0 < 0x1_0000_0000_0000_0000_0000
    }

    /// No clause comes before this one.
    pub open spec fn first_clause(&self) -> bool {
        forall|i: int| 0 <= i < self.items@.len() ==> (#[trigger] self.items@[i]).0 <= usize::MAX
    }

    /// The columns with their parameters.
    pub open spec fn view(&self) -> Placed {
        Seq::new(
            self.items@.len(),
            |i: int| (self.items@[i].0 as int, self.columns@[self.items@[i].1 as int]),
        )
    }

    /// All columns, each with the parameter of its own position.
    pub fn all(columns: &'a Vec<PublicationTableColumn>) -> (r: Self)
        ensures
            r.wf(),
            r.first_clause(),
            r@ == all_placed(columns@),
            r.columns == columns,
    {
        let mut items: Vec<(u128, usize)> = Vec::new();
        for i in 0..columns.len()
            invariant
                items@.len() == i,
                forall|k: int| 0 <= k < i ==> #[trigger] items@[k] == (k as u128, k as usize),
        {
            items.push((i as u128, i));
        }
        let r = Columns { columns, items };
        assert(r@ == all_placed(columns@));
        r
    }

    /// The columns that a change gives a value for, with parameters in sequence.
    pub fn present(
        columns: &'a Vec<PublicationTableColumn>,
        present: &NonIdentityColumnsPresence,
    ) -> (r: Self)
        ensures
            r.wf(),
            r.first_clause(),
            r@.len() == present_in(columns@, present.marks@).len(),
            forall|i: int|
                0 <= i < r@.len() ==> #[trigger] r@[i] == (
                    i,
                    present_in(columns@, present.marks@)[i],
                ),
            r.columns == columns,
    {
        let mut items: Vec<(u128, usize)> = Vec::new();
        let mut plain: usize = 0;
        assert(columns@.take(0) == Seq::<PublicationTableColumn>::empty());
        for i in 0..columns.len()
            invariant
                plain == plain_count(columns@.take(i as int)),
                plain <= i,
                items@.len() == present_in(columns@.take(i as int), present.marks@).len(),
                items@.len() <= i,
                forall|k: int|
                    0 <= k < items@.len() ==> (#[trigger] items@[k]).0 == k && items@[k].1 < i
                        && columns@[items@[k].1 as int] == present_in(
                        columns@.take(i as int),
                        present.marks@,
                    )[k],
        {
            assert(columns@.take(i + 1).drop_last() == columns@.take(i as int));
            assert(columns@.take(i + 1).last() == columns@[i as int]);
            let number: u128 = items.len() as u128;
            if columns[i].identity {
                items.push((number, i));
            } else {
                if present.is_set(plain) {
                    items.push((number, i));
                }
                plain = plain + 1;
            }
        }
        assert(columns@.take(columns@.len() as int) == columns@);
        Columns { columns, items }
    }

    /// The columns that tell rows apart, or the other ones. They keep their parameters.
    pub fn filter_identity(self, identity: bool) -> (r: Self)
        requires
            self.wf(),
        ensures
            r.wf(),
            self.first_clause() ==> r.first_clause(),
            r@ == of_identity(self@, identity),
            r.columns == self.columns,
    {
        let mut items: Vec<(u128, usize)> = Vec::new();
        let ghost p = |c: (int, PublicationTableColumn)| c.1.identity == identity;
        proof {
            reveal(Seq::filter);
            assert(self@.take(0) == Seq::<(int, PublicationTableColumn)>::empty());
        }
        for i in 0..self.items.len()
            invariant
                self.wf(),
                p == (|c: (int, PublicationTableColumn)| c.1.identity == identity),
                (Columns { columns: self.columns, items }).wf(),
                self.first_clause() ==> (Columns { columns: self.columns, items }).first_clause(),
                (Columns { columns: self.columns, items })@ == self@.take(i as int).filter(p),
        {
            let item = self.items[i];
            let ghost before = Columns { columns: self.columns, items };
            proof {
                reveal(Seq::filter);
                assert(self@.take(i + 1).drop_last() == self@.take(i as int));
                assert(self@.take(i + 1).last() == self@[i as int]);
            }
            if self.columns[item.1].identity == identity {
                items.push(item);
                assert((Columns { columns: self.columns, items })@ == before@.push(self@[i as int]));
            }
        }
        assert(self@.take(self@.len() as int) == self@);
        Columns { columns: self.columns, items }
    }

    /// The columns with parameters from the first on, in sequence.
    pub fn reindexed(self) -> (r: Self)
        requires
            self.wf(),
        ensures
            r.wf(),
            r.first_clause(),
            r@ == renumbered(self@),
            r.columns == self.columns,
    {
        let mut items: Vec<(u128, usize)> = Vec::new();
        for i in 0..self.items.len()
            invariant
                self.wf(),
                items@.len() == i,
                forall|k: int|
                    0 <= k < i ==> #[trigger] items@[k] == (k as u128, self.items@[k].1),
        {
            items.push((i as u128, self.items[i].1));
        }
        let r = Columns { columns: self.columns, items };
        assert(r@ == renumbered(self@));
        r
    }

    /// The columns with parameters that come `offset` later, after those of another clause.
    pub fn with_offset(self, offset: usize) -> (r: Self)
        requires
            self.wf(),
            self.first_clause(),
        ensures
            r.wf(),
            r@ == shifted(self@, offset as int),
            r.columns == self.columns,
    {
        let mut items: Vec<(u128, usize)> = Vec::new();
        for i in 0..self.items.len()
            invariant
                self.wf(),
                self.first_clause(),
                items@.len() == i,
                forall|k: int|
                    0 <= k < i ==> (#[trigger] items@[k]).0 == self.items@[k].0 + offset && items@[k].1
                        == self.items@[k].1,
        {
            items.push((self.items[i].0 + offset as u128, self.items[i].1));
        }
        let r = Columns { columns: self.columns, items };
        assert(r@ == shifted(self@, offset as int));
        r
    }

    fn said_of(&self, what: Phrase, i: usize) -> (r: String)
        requires
            self.wf(),
            i < self.items@.len(),
        ensures
            r@ == phrase(what, self@[i as int]),
    {
        let item = self.items[i];
        let number = wide_decimal_text(item.0 + 1);
        let name = quote_identifier(self.columns[item.1].name.as_str());
        match what {
            Phrase::Name => name,
            Phrase::Placeholder => concat2("$", number.as_str()),
            Phrase::Equals => concat3(name.as_str(), " = $", number.as_str()),
            Phrase::NotDistinct => {
                concat3(name.as_str(), " IS NOT DISTINCT FROM $", number.as_str())
            },
        }
    }

    fn said(&self, what: Phrase, separator: &str) -> (r: String)
        requires
            self.wf(),
        ensures
            r@ == phrases(what, self@, separator@),
    {
        let mut parts: Vec<String> = Vec::new();
        let ghost f = |c: (int, PublicationTableColumn)| phrase(what, c);
        for i in 0..self.items.len()
            invariant
                self.wf(),
                parts@.len() == i,
                forall|k: int| 0 <= k < i ==> (#[trigger] parts@[k])@ == phrase(what, self@[k]),
        {
            parts.push(self.said_of(what, i));
        }
        assert(views(parts@) == self@.map_values(f));
        join(&parts, separator)
    }

    /// Names of the columns.
    pub fn names(&self) -> (r: String)
        requires
            self.wf(),
        ensures
            r@ == phrases(Phrase::Name, self@, ", "@),
    {
        self.said(Phrase::Name, ", ")
    }

    /// Parameters with the values of the columns.
    pub fn placeholders(&self) -> (r: String)
        requires
            self.wf(),
        ensures
            r@ == phrases(Phrase::Placeholder, self@, ", "@),
    {
        self.said(Phrase::Placeholder, ", ")
    }

    /// Assignments of the parameters to the columns.
    pub fn assignments(&self) -> (r: String)
        requires
            self.wf(),
        ensures
            r@ == phrases(Phrase::Equals, self@, ", "@),
    {
        self.said(Phrase::Equals, ", ")
    }

    /// The condition that the columns have the values of the parameters.
    pub fn predicates(&self) -> (r: String)
        requires
            self.wf(),
        ensures
            r@ == phrases(Phrase::Equals, self@, " AND "@),
    {
        self.said(Phrase::Equals, " AND ")
    }

    /// The condition that the columns have the values of the parameters, where null is like any
    /// value.
    pub fn not_distinct_from_predicates(&self) -> (r: String)
        requires
            self.wf(),
        ensures
            r@ == phrases(Phrase::NotDistinct, self@, " AND "@),
    {
        self.said(Phrase::NotDistinct, " AND ")
    }
}

} // verus!
