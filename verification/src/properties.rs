//! What is known of a spreadsheet: its sheets, and the columns of each by
//! name.

use vstd::prelude::*;

verus! {

/// How the results of two selections are combined.
#[derive(Clone, Copy, Debug, PartialEq, Eq, Structural)]
pub enum SelectOperator {
    Union,
}

/// How two predicates are combined.
#[derive(Clone, Copy, Debug, PartialEq, Eq, Structural)]
pub enum PredicateOperator {
    And,
    Or,
    Not,
}

/// A column's name with its index.
pub struct Column {
    pub name: String,
    pub index: usize,
}

/// Whether no two of the texts are the same.
pub open spec fn all_distinct(names: Seq<Seq<char>>) -> bool {
    forall|i: int, j: int| 0 <= i < j < names.len() ==> names[i] != names[j]
}

/// The names of the columns, in order.
pub open spec fn column_names(columns: Seq<Column>) -> Seq<Seq<char>> {
    Seq::new(columns.len(), |i: int| columns[i].name@)
}

/// The names of the sheets, in order.
pub open spec fn sheet_names(sheets: Seq<SheetProperties>) -> Seq<Seq<char>> {
    Seq::new(sheets.len(), |i: int| sheets[i].name_spec())
}

/// Whether no two of the names are the same.
fn names_distinct(names: &Vec<&String>) -> (b: bool)
    ensures
        b == all_distinct(Seq::new(names@.len(), |i: int| names@[i]@)),
{
    let ghost texts = Seq::new(names@.len(), |i: int| names@[i]@);
    let mut i: usize = 0;
    while i < names.len()
        invariant
            0 <= i <= names.len(),
            texts == Seq::new(names@.len(), |i: int| names@[i]@),
            forall|a: int, b: int| 0 <= a < b < i ==> texts[a] != texts[b],
        decreases names.len() - i,
    {
        let mut j: usize = 0;
        while j < i
            invariant
                0 <= j <= i < names.len(),
                texts == Seq::new(names@.len(), |i: int| names@[i]@),
                forall|a: int| 0 <= a < j ==> texts[a] != texts[i as int],
            decreases i - j,
        {
            if *names[j] == *names[i] {
                assert(texts[j as int] == texts[i as int]);
                return false;
            }
            j += 1;
        }
        i += 1;
    }
    true
}

/// A sheet: its name, its id, and its columns by name. No two columns have
/// the same name.
pub struct SheetProperties {
    name: String,
    id: i32,
    columns: Vec<Column>,
}

/// Whether `at` is the position of the column with the given name: no
/// column before it has that name.
pub open spec fn is_first_column(columns: Seq<Column>, name: Seq<char>, at: int) -> bool {
    &&& 0 <= at < columns.len()
    &&& columns[at].name@ == name
    &&& forall|j: int| 0 <= j < at ==> (#[trigger] columns[j]).name@ != name
}

impl SheetProperties {
    /// No two columns have the same name.
    #[verifier::type_invariant]
    closed spec fn inv(&self) -> bool {
        all_distinct(column_names(self.columns@))
    }

    /// The name of the sheet.
    pub closed spec fn name_spec(&self) -> Seq<char> {
        self.name@
    }

    /// The id of the sheet.
    pub closed spec fn id_spec(&self) -> i32 {
        self.id
    }

    /// The columns of the sheet, as they were given.
    pub closed spec fn columns_spec(&self) -> Seq<Column> {
        self.columns@
    }

    /// A sheet with the given columns; `None` where two of the columns have
    /// the same name.
    pub fn new(name: String, id: i32, columns: Vec<Column>) -> (r: Option<Self>)
        ensures
            r is Some <==> all_distinct(column_names(columns@)),
            r matches Some(p) ==> p.name_spec() == name@ && p.id_spec() == id && p.columns_spec()
                == columns@,
    {
        let mut names: Vec<&String> = Vec::new();
        let mut i: usize = 0;
        while i < columns.len()
            invariant
                0 <= i <= columns.len(),
                names@.len() == i,
                forall|j: int| 0 <= j < i ==> (#[trigger] names@[j])@ == columns@[j].name@,
            decreases columns.len() - i,
        {
            names.push(&columns[i].name);
            i += 1;
        }
        assert(Seq::new(names@.len(), |i: int| names@[i]@) =~= column_names(columns@));
        if names_distinct(&names) {
            Some(SheetProperties { name, id, columns })
        } else {
            None
        }
    }

    /// The name of the sheet.
    pub fn name(&self) -> (n: &str)
        ensures
            n@ == self.name_spec(),
    {
        self.name.as_str()
    }

    /// The id of the sheet.
    pub fn id(&self) -> (id: i32)
        ensures
            id == self.id_spec(),
    {
        self.id
    }

    /// The names of the columns, in the order in which they were given; no
    /// name comes twice.
    pub fn columns(&self) -> (names: Vec<&String>)
        ensures
            all_distinct(column_names(self.columns_spec())),
            names@.len() == self.columns_spec().len(),
            forall|i: int|
                0 <= i < names@.len() ==> (#[trigger] names@[i])@ == self.columns_spec()[i].name@,
    {
        proof {
            use_type_invariant(self);
        }
        let mut names: Vec<&String> = Vec::new();
        let mut i: usize = 0;
        while i < self.columns.len()
            invariant
                0 <= i <= self.columns.len(),
                names@.len() == i,
                forall|j: int| 0 <= j < i ==> (#[trigger] names@[j])@ == self.columns@[j].name@,
            decreases self.columns.len() - i,
        {
            names.push(&self.columns[i].name);
            i += 1;
        }
        names
    }

    /// The index of the column with the given name, of which there is one at
    /// most; `None` where the sheet has no such column.
    pub fn column_idx(&self, name: &str) -> (r: Option<&usize>)
        ensures
            all_distinct(column_names(self.columns_spec())),
            match r {
                Some(index) => exists|at: int|
                    is_first_column(self.columns_spec(), name@, at) && *index
                        == self.columns_spec()[at].index,
                None => forall|j: int|
                    0 <= j < self.columns_spec().len() ==> (#[trigger] self.columns_spec()[j]).name@
                        != name@,
            },
    {
        proof {
            use_type_invariant(self);
        }
        let wanted: String = name.to_owned();
        let mut i: usize = 0;
        while i < self.columns.len()
            invariant
                0 <= i <= self.columns.len(),
                wanted@ == name@,
                all_distinct(column_names(self.columns@)),
                forall|j: int| 0 <= j < i ==> (#[trigger] self.columns@[j]).name@ != name@,
            decreases self.columns.len() - i,
        {
            if self.columns[i].name == wanted {
                assert(is_first_column(self.columns_spec(), name@, i as int));
                return Some(&self.columns[i].index);
            }
            i += 1;
        }
        None
    }
}

/// Whether `at` is the position of the sheet with the given name: no sheet
/// before it has that name.
pub open spec fn is_first_sheet(sheets: Seq<SheetProperties>, name: Seq<char>, at: int) -> bool {
    &&& 0 <= at < sheets.len()
    &&& sheets[at].name_spec() == name
    &&& forall|j: int| 0 <= j < at ==> (#[trigger] sheets[j]).name_spec() != name
}

/// A spreadsheet: its id and its sheets. No two sheets have the same name.
pub struct SpreadsheetProperties {
    id: String,
    sheets: Vec<SheetProperties>,
}

impl SpreadsheetProperties {
    /// No two sheets have the same name.
    #[verifier::type_invariant]
    closed spec fn inv(&self) -> bool {
        all_distinct(sheet_names(self.sheets@))
    }

    /// The id of the spreadsheet.
    pub closed spec fn id_spec(&self) -> Seq<char> {
        self.id@
    }

    /// The sheets of the spreadsheet, as they were given.
    pub closed spec fn sheets_spec(&self) -> Seq<SheetProperties> {
        self.sheets@
    }

    /// A spreadsheet with the given sheets; `None` where two of the sheets
    /// have the same name.
    pub fn new(id: String, sheets: Vec<SheetProperties>) -> (r: Option<Self>)
        ensures
            r is Some <==> all_distinct(sheet_names(sheets@)),
            r matches Some(p) ==> p.id_spec() == id@ && p.sheets_spec() == sheets@,
    {
        let mut names: Vec<&String> = Vec::new();
        let mut i: usize = 0;
        while i < sheets.len()
            invariant
                0 <= i <= sheets.len(),
                names@.len() == i,
                forall|j: int| 0 <= j < i ==> (#[trigger] names@[j])@ == sheets@[j].name_spec(),
            decreases sheets.len() - i,
        {
            names.push(&sheets[i].name);
            i += 1;
        }
        assert(Seq::new(names@.len(), |i: int| names@[i]@) =~= sheet_names(sheets@));
        if names_distinct(&names) {
            Some(SpreadsheetProperties { id, sheets })
        } else {
            None
        }
    }

    /// The id of the spreadsheet.
    pub fn id(&self) -> (id: &str)
        ensures
            id@ == self.id_spec(),
    {
        self.id.as_str()
    }

    /// The sheet with the given name, of which there is one at most; `None`
    /// where there is none.
    pub fn sheet(&self, name: &str) -> (r: Option<&SheetProperties>)
        ensures
            all_distinct(sheet_names(self.sheets_spec())),
            match r {
                Some(sheet) => exists|at: int|
                    is_first_sheet(self.sheets_spec(), name@, at) && *sheet
                        == self.sheets_spec()[at],
                None => forall|j: int|
                    0 <= j < self.sheets_spec().len() ==> (
                    #[trigger] self.sheets_spec()[j]).name_spec() != name@,
            },
    {
        proof {
            use_type_invariant(self);
        }
        let wanted: String = name.to_owned();
        let mut i: usize = 0;
        while i < self.sheets.len()
            invariant
                0 <= i <= self.sheets.len(),
                wanted@ == name@,
                all_distinct(sheet_names(self.sheets@)),
                forall|j: int| 0 <= j < i ==> (#[trigger] self.sheets@[j]).name_spec() != name@,
            decreases self.sheets.len() - i,
        {
            if self.sheets[i].name == wanted {
                assert(is_first_sheet(self.sheets_spec(), name@, i as int));
                return Some(&self.sheets[i]);
            }
            i += 1;
        }
        None
    }
}

} // verus!
