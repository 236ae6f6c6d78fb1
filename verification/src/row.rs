//! The row protocol: one record is one flat row of scalar cells.
//!
//! A record is written as its fields' cells in the order of declaration, and
//! read back the same way. Only one level of structure is allowed: the record
//! itself may begin a sequence, a tuple or a struct, and a second beginning in
//! the same row is refused.

use crate::cell::{is_blank, row_view, Cell, CellView, Number};
use crate::text::{
    chars_of, is_space, parse_i64_of, parse_u64_of, parsed_i64, parsed_u64, string_of,
    whitespace,
};
use vstd::prelude::*;

verus! {

/// Why a row could not be written or read.
#[derive(Debug)]
pub enum Error {
    Custom(String),
    OutOfBounds,
    ExpectedBoolean,
    ExpectedString,
    ExpectedChar,
    ExpectedDouble,
    ExpectedSigned,
    ExpectedUnsigned,
    ExpectedEmpty,
    UnexpectedSequence,
    UnexpectedTuple,
    UnexpectedStruct(String),
    UnexpectedMap,
    UnexpectedBytes,
    OrphanMetadata,
}

impl Error {
    /// The message of this error, as a character sequence.
    pub open spec fn message(&self) -> Seq<char> {
        match self {
            Error::Custom(text) => text@,
            Error::OutOfBounds => "row is out of bounds"@,
            Error::ExpectedBoolean => "expected a boolean value"@,
            Error::ExpectedString => "expected a string value"@,
            Error::ExpectedChar => "expected a char value"@,
            Error::ExpectedDouble => "expected a double value"@,
            Error::ExpectedSigned => "expected a signed value"@,
            Error::ExpectedUnsigned => "expected an unsigned value"@,
            Error::ExpectedEmpty => "expected an empty cell"@,
            Error::UnexpectedSequence => "unexpected sequence"@,
            Error::UnexpectedTuple => "unexpected tuple"@,
            Error::UnexpectedStruct(name) => "unexpected struct: "@ + name@,
            Error::UnexpectedMap => "unexpected map"@,
            Error::UnexpectedBytes => "unexpected bytes"@,
            Error::OrphanMetadata => "orphan metadata"@,
        }
    }

    /// The message of this error.
    pub fn to_string(&self) -> (s: String)
        ensures
            s@ == self.message(),
    {
        match self {
            Error::Custom(text) => text.clone(),
            Error::OutOfBounds => "row is out of bounds".to_owned(),
            Error::ExpectedBoolean => "expected a boolean value".to_owned(),
            Error::ExpectedString => "expected a string value".to_owned(),
            Error::ExpectedChar => "expected a char value".to_owned(),
            Error::ExpectedDouble => "expected a double value".to_owned(),
            Error::ExpectedSigned => "expected a signed value".to_owned(),
            Error::ExpectedUnsigned => "expected an unsigned value".to_owned(),
            Error::ExpectedEmpty => "expected an empty cell".to_owned(),
            Error::UnexpectedSequence => "unexpected sequence".to_owned(),
            Error::UnexpectedTuple => "unexpected tuple".to_owned(),
            Error::UnexpectedStruct(name) => {
                let mut out: String = "unexpected struct: ".to_owned();
                out.append(name.as_str());
                out
            },
            Error::UnexpectedMap => "unexpected map".to_owned(),
            Error::UnexpectedBytes => "unexpected bytes".to_owned(),
            Error::OrphanMetadata => "orphan metadata".to_owned(),
        }
    }
}

/// The kinds of nested structure that a record may begin.
pub enum Nesting {
    Sequence,
    Tuple,
    Struct,
}

/// A double that was read from a cell: its bits where the cell held a number,
/// else the cleaned text that remains to be read as a double, and whether it
/// stood for a percentage and is to be divided by a hundred.
#[derive(Debug)]
pub enum Double {
    Bits(u64),
    Text { digits: String, percent: bool },
}

/// The boolean that a cell stands for: a boolean cell, or the text `TRUE` or
/// `FALSE`.
pub open spec fn bool_of(c: CellView) -> Option<bool> {
    match c {
        CellView::Bool(b) => Some(b),
        CellView::String(s) => if s == "TRUE"@ {
            Some(true)
        } else if s == "FALSE"@ {
            Some(false)
        } else {
            None
        },
        _ => None,
    }
}

/// The unsigned number that a cell stands for: a non-negative whole number,
/// or a text that reads as one.
pub open spec fn unsigned_of(c: CellView) -> Option<u64> {
    match c {
        CellView::Number(Number::PosInt(v)) => Some(v),
        CellView::String(s) => parsed_u64(s),
        _ => None,
    }
}

/// The signed number that a cell stands for: a whole number that fits, or a
/// text that reads as one.
pub open spec fn signed_of(c: CellView) -> Option<i64> {
    match c {
        CellView::Number(Number::PosInt(v)) => if v <= i64::MAX as u64 {
            Some(v as i64)
        } else {
            None
        },
        CellView::Number(Number::NegInt(v)) => Some(v),
        CellView::String(s) => parsed_i64(s),
        _ => None,
    }
}

/// The text that a cell stands for: that of a text cell, as it is.
pub open spec fn text_of(c: CellView) -> Option<Seq<char>> {
    match c {
        CellView::String(s) => Some(s),
        _ => None,
    }
}

/// The unit that a cell stands for: a cell that counts as empty.
pub open spec fn unit_of(c: CellView) -> Option<()> {
    if is_blank(c) {
        Some(())
    } else {
        None
    }
}

/// Whether the next value of a row counts as absent: the row has run out, or
/// its next cell counts as empty.
pub open spec fn next_is_absent(remaining: Seq<CellView>) -> bool {
    remaining.len() == 0 || is_blank(remaining[0])
}

/// A numeric text made ready for reading: every comma becomes a point and
/// white space is dropped.
pub open spec fn cleaned(s: Seq<char>) -> Seq<char>
    decreases s.len(),
{
    if s.len() == 0 {
        s
    } else if whitespace(s.last()) {
        cleaned(s.drop_last())
    } else if s.last() == ',' {
        cleaned(s.drop_last()).push('.')
    } else {
        cleaned(s.drop_last()).push(s.last())
    }
}

/// The cleaned text without a percent sign at its end.
pub open spec fn double_digits(s: Seq<char>) -> Seq<char> {
    let c = cleaned(s);
    if c.len() > 0 && c.last() == '%' {
        c.drop_last()
    } else {
        c
    }
}

/// Whether the cleaned text ends in a percent sign.
pub open spec fn is_percent(s: Seq<char>) -> bool {
    let c = cleaned(s);
    c.len() > 0 && c.last() == '%'
}

/// Makes a numeric text ready for reading as a double, and tells whether it
/// is a percentage.
pub fn clean_double(s: &str) -> (r: (String, bool))
    ensures
        r.0@ == double_digits(s@),
        r.1 == is_percent(s@),
{
    let chars: Vec<char> = chars_of(s);
    let mut out: Vec<char> = Vec::new();
    let mut i: usize = 0;
    while i < chars.len()
        invariant
            0 <= i <= chars.len(),
            out@ == cleaned(chars@.take(i as int)),
        decreases chars.len() - i,
    {
        let c: char = chars[i];
        proof {
            assert(chars@.take(i as int + 1).drop_last() =~= chars@.take(i as int));
            assert(chars@.take(i as int + 1).last() == c);
        }
        if is_space(c) {
        } else if c == ',' {
            out.push('.');
        } else {
            out.push(c);
        }
        i += 1;
    }
    proof {
        assert(chars@.take(i as int) =~= chars@);
    }
    let percent: bool = out.len() > 0 && out[out.len() - 1] == '%';
    if percent {
        out.pop();
    }
    (string_of(&out), percent)
}

/// What reading one cell as a scalar comes to: an empty row is out of bounds;
/// else the cell is stepped over, and the value is what the cell stands for,
/// or the given refusal where it stands for none.
pub open spec fn read_as<T>(
    before: Seq<CellView>,
    after: Seq<CellView>,
    r: Result<T, Error>,
    meaning: spec_fn(CellView) -> Option<T>,
    refusal: Error,
) -> bool {
    match r {
        Ok(v) => before.len() > 0 && meaning(before[0]) == Some(v) && after == before.skip(1),
        Err(e) => if before.len() == 0 {
            e == Error::OutOfBounds && after == before
        } else {
            e == refusal && meaning(before[0]) is None && after == before.skip(1)
        },
    }
}

/// Whether `e` is the refusal of a second nested structure of the given kind.
pub open spec fn nesting_refused(kind: Nesting, name: Seq<char>, e: Error) -> bool {
    match kind {
        Nesting::Sequence => e == Error::UnexpectedSequence,
        Nesting::Tuple => e == Error::UnexpectedTuple,
        Nesting::Struct => e is UnexpectedStruct && e->UnexpectedStruct_0@ == name,
    }
}

/// The refusal of a second nested structure of the given kind.
pub fn refusal_of(kind: Nesting, name: &str) -> (e: Error)
    ensures
        nesting_refused(kind, name@, e),
{
    match kind {
        Nesting::Sequence => Error::UnexpectedSequence,
        Nesting::Tuple => Error::UnexpectedTuple,
        Nesting::Struct => Error::UnexpectedStruct(name.to_owned()),
    }
}

/// Reads the cells of one row, one after another.
pub struct RowDeserializer {
    data: Vec<Cell>,
    pos: usize,
    seq_began: bool,
}

impl RowDeserializer {
    /// Whether the position lies within the row.
    #[verifier::type_invariant]
    closed spec fn inv(&self) -> bool {
        self.pos <= self.data.len()
    }

    /// The cells that are still to be read.
    pub closed spec fn remaining(&self) -> Seq<CellView> {
        row_view(self.data@).skip(self.pos as int)
    }

    /// Whether a nested structure has begun in this row.
    pub closed spec fn began(&self) -> bool {
        self.seq_began
    }

    /// A reader at the start of the given row.
    pub fn new(data: Vec<Cell>) -> (r: Self)
        ensures
            r.remaining() == row_view(data@),
            !r.began(),
    {
        let r = RowDeserializer { data, pos: 0, seq_began: false };
        assert(r.remaining() =~= row_view(data@));
        r
    }

    /// Whether no cell is left.
    pub fn is_empty(&self) -> (b: bool)
        ensures
            b == (self.remaining().len() == 0),
    {
        proof {
            use_type_invariant(self);
        }
        self.pos >= self.data.len()
    }

    /// Whether the next cell counts as empty. A row that has run out has only
    /// empty cells left.
    pub fn is_next_empty(&self) -> (b: bool)
        ensures
            b == next_is_absent(self.remaining()),
    {
        proof {
            use_type_invariant(self);
        }
        if self.pos >= self.data.len() {
            return true;
        }
        match &self.data[self.pos] {
            Cell::Null => true,
            Cell::String(s) => s.as_str().unicode_len() == 0,
            _ => false,
        }
    }

    /// Steps over the next cell and hands it out.
    pub fn next(&mut self) -> (r: Result<&Cell, Error>)
        ensures
            final(self).began() == old(self).began(),
            match r {
                Ok(cell) => old(self).remaining().len() > 0 && cell@ == old(self).remaining()[0]
                    && final(self).remaining() == old(self).remaining().skip(1),
                Err(e) => old(self).remaining().len() == 0 && e == Error::OutOfBounds
                    && final(self).remaining() == old(self).remaining(),
            },
    {
        proof {
            use_type_invariant(&*self);
        }
        if self.pos < self.data.len() {
            let at: usize = self.pos;
            self.pos = at + 1;
            proof {
                assert(row_view(self.data@).skip(at as int + 1) =~= row_view(self.data@).skip(
                    at as int,
                ).skip(1));
            }
            Ok(&self.data[at])
        } else {
            Err(Error::OutOfBounds)
        }
    }

    /// Reads the next cell as a boolean.
    pub fn parse_bool(&mut self) -> (r: Result<bool, Error>)
        ensures
            final(self).began() == old(self).began(),
            read_as(
                old(self).remaining(),
                final(self).remaining(),
                r,
                |c: CellView| bool_of(c),
                Error::ExpectedBoolean,
            ),
    {
        match self.next() {
            Err(e) => Err(e),
            Ok(cell) => match cell {
                Cell::Bool(v) => Ok(*v),
                Cell::String(s) => {
                    if *s == "TRUE".to_owned() {
                        Ok(true)
                    } else if *s == "FALSE".to_owned() {
                        Ok(false)
                    } else {
                        Err(Error::ExpectedBoolean)
                    }
                },
                _ => Err(Error::ExpectedBoolean),
            },
        }
    }

    /// Reads the next cell as an unsigned number.
    pub fn parse_u64(&mut self) -> (r: Result<u64, Error>)
        ensures
            final(self).began() == old(self).began(),
            read_as(
                old(self).remaining(),
                final(self).remaining(),
                r,
                |c: CellView| unsigned_of(c),
                Error::ExpectedUnsigned,
            ),
    {
        match self.next() {
            Err(e) => Err(e),
            Ok(cell) => match cell {
                Cell::Number(Number::PosInt(v)) => Ok(*v),
                Cell::String(s) => match parse_u64_of(s.as_str()) {
                    Some(v) => Ok(v),
                    None => Err(Error::ExpectedUnsigned),
                },
                _ => Err(Error::ExpectedUnsigned),
            },
        }
    }

    /// Reads the next cell as a signed number.
    pub fn parse_i64(&mut self) -> (r: Result<i64, Error>)
        ensures
            final(self).began() == old(self).began(),
            read_as(
                old(self).remaining(),
                final(self).remaining(),
                r,
                |c: CellView| signed_of(c),
                Error::ExpectedSigned,
            ),
    {
        match self.next() {
            Err(e) => Err(e),
            Ok(cell) => match cell {
                Cell::Number(Number::PosInt(v)) => {
                    if *v <= 0x7fff_ffff_ffff_ffffu64 {
                        Ok(*v as i64)
                    } else {
                        Err(Error::ExpectedSigned)
                    }
                },
                Cell::Number(Number::NegInt(v)) => Ok(*v),
                Cell::String(s) => match parse_i64_of(s.as_str()) {
                    Some(v) => Ok(v),
                    None => Err(Error::ExpectedSigned),
                },
                _ => Err(Error::ExpectedSigned),
            },
        }
    }

    /// Reads the next cell as a double: the bits of a number with a fraction,
    /// or the cleaned text of a text cell, which is still to be read.
    pub fn parse_f64(&mut self) -> (r: Result<Double, Error>)
        ensures
            final(self).began() == old(self).began(),
            match r {
                Ok(d) => old(self).remaining().len() > 0 && final(self).remaining() == old(
                    self,
                ).remaining().skip(1) && match old(self).remaining()[0] {
                    CellView::Number(Number::Float(bits)) => d == Double::Bits(bits),
                    CellView::String(s) => d is Text && d->digits@ == double_digits(s)
                        && d->percent == is_percent(s),
                    _ => false,
                },
                Err(e) => if old(self).remaining().len() == 0 {
                    e == Error::OutOfBounds && final(self).remaining() == old(self).remaining()
                } else {
                    e == Error::ExpectedDouble && final(self).remaining() == old(
                        self,
                    ).remaining().skip(1) && !(old(self).remaining()[0] is String) && !(old(
                        self,
                    ).remaining()[0] matches CellView::Number(Number::Float(_)))
                },
            },
    {
        match self.next() {
            Err(e) => Err(e),
            Ok(cell) => match cell {
                Cell::Number(Number::Float(bits)) => Ok(Double::Bits(*bits)),
                Cell::String(s) => {
                    let (digits, percent) = clean_double(s.as_str());
                    Ok(Double::Text { digits, percent })
                },
                _ => Err(Error::ExpectedDouble),
            },
        }
    }

    /// Reads the next cell as a text, as it stands in the cell. A cell that
    /// holds no text is refused with `ExpectedString`.
    pub fn parse_str(&mut self) -> (r: Result<String, Error>)
        ensures
            final(self).began() == old(self).began(),
            match r {
                Ok(t) => old(self).remaining().len() > 0 && text_of(old(self).remaining()[0])
                    == Some(t@) && final(self).remaining() == old(self).remaining().skip(1),
                Err(e) => if old(self).remaining().len() == 0 {
                    e == Error::OutOfBounds && final(self).remaining() == old(self).remaining()
                } else {
                    e == Error::ExpectedString && text_of(old(self).remaining()[0]) is None
                        && final(self).remaining() == old(self).remaining().skip(1)
                },
            },
    {
        match self.next() {
            Err(e) => Err(e),
            Ok(cell) => match cell {
                Cell::String(s) => Ok(s.clone()),
                _ => Err(Error::ExpectedString),
            },
        }
    }

    /// Reads the next cell as one character: the first of its text.
    pub fn parse_char(&mut self) -> (r: Result<char, Error>)
        ensures
            final(self).began() == old(self).began(),
            match r {
                Ok(c) => old(self).remaining().len() > 0 && text_of(old(self).remaining()[0])
                    is Some && text_of(old(self).remaining()[0])->0.len() > 0 && c == text_of(
                    old(self).remaining()[0],
                )->0[0] && final(self).remaining() == old(self).remaining().skip(1),
                Err(e) => if old(self).remaining().len() == 0 {
                    e == Error::OutOfBounds && final(self).remaining() == old(self).remaining()
                } else {
                    final(self).remaining() == old(self).remaining().skip(1) && match text_of(
                        old(self).remaining()[0],
                    ) {
                        None => e == Error::ExpectedString,
                        Some(t) => t.len() == 0 && e == Error::ExpectedChar,
                    }
                },
            },
    {
        match self.parse_str() {
            Err(e) => Err(e),
            Ok(t) => {
                if t.as_str().is_empty() {
                    Err(Error::ExpectedChar)
                } else {
                    Ok(t.as_str().get_char(0))
                }
            },
        }
    }

    /// Tells whether an optional value is absent: the row has run out, or
    /// the next cell counts as empty. The empty cell of an absent value is
    /// stepped over, as it is the cell of this field; the cell of a value
    /// that is there stays, to be read as that value.
    pub fn read_option(&mut self) -> (absent: bool)
        ensures
            absent == next_is_absent(old(self).remaining()),
            final(self).began() == old(self).began(),
            final(self).remaining() == if absent && old(self).remaining().len() > 0 {
                old(self).remaining().skip(1)
            } else {
                old(self).remaining()
            },
    {
        proof {
            use_type_invariant(&*self);
        }
        if self.pos >= self.data.len() {
            return true;
        }
        let absent: bool = self.is_next_empty();
        if absent {
            let at: usize = self.pos;
            self.pos = at + 1;
            proof {
                assert(row_view(self.data@).skip(at as int + 1) =~= row_view(self.data@).skip(
                    at as int,
                ).skip(1));
            }
        }
        absent
    }

    /// Reads a unit: the next cell is stepped over and must count as empty.
    /// A row that has run out is out of bounds.
    pub fn read_unit(&mut self) -> (r: Result<(), Error>)
        ensures
            final(self).began() == old(self).began(),
            read_as(
                old(self).remaining(),
                final(self).remaining(),
                r,
                |c: CellView| unit_of(c),
                Error::ExpectedEmpty,
            ),
    {
        match self.next() {
            Err(e) => Err(e),
            Ok(cell) => match cell {
                Cell::Null => Ok(()),
                Cell::String(s) => {
                    if s.as_str().is_empty() {
                        Ok(())
                    } else {
                        Err(Error::ExpectedEmpty)
                    }
                },
                _ => Err(Error::ExpectedEmpty),
            },
        }
    }

    /// Begins the one nested structure that a row may hold. A second
    /// beginning in the same row is refused, with the error of its kind;
    /// `name` is the name that a refused struct is reported with.
    pub fn begin(&mut self, kind: Nesting, name: &str) -> (r: Result<(), Error>)
        ensures
            final(self).remaining() == old(self).remaining(),
            final(self).began(),
            r is Ok <==> !old(self).began(),
            r matches Err(e) ==> nesting_refused(kind, name@, e),
    {
        proof {
            use_type_invariant(&*self);
        }
        if !self.seq_began {
            self.seq_began = true;
            Ok(())
        } else {
            Err(refusal_of(kind, name))
        }
    }
}

/// A scalar value of a record, as the protocol carries it. `Float` holds the
/// bits of a double; `Absent` is a missing optional value or a unit.
pub enum Scalar {
    Bool(bool),
    Unsigned(u64),
    Signed(i64),
    Float(u64),
    Text(Seq<char>),
    Absent,
}

/// The cell that a scalar is written as: whole numbers and doubles as number
/// cells, texts as text cells, and an absent value as an empty text.
pub open spec fn cell_of(v: Scalar) -> CellView {
    match v {
        Scalar::Bool(b) => CellView::Bool(b),
        Scalar::Unsigned(n) => CellView::Number(Number::PosInt(n)),
        Scalar::Signed(n) => if n >= 0 {
            CellView::Number(Number::PosInt(n as u64))
        } else {
            CellView::Number(Number::NegInt(n))
        },
        Scalar::Float(bits) => CellView::Number(Number::Float(bits)),
        Scalar::Text(s) => CellView::String(s),
        Scalar::Absent => CellView::String(Seq::empty()),
    }
}

/// The cells that a record of scalars is written as, in the order of its
/// fields.
pub open spec fn written(record: Seq<Scalar>) -> Seq<CellView> {
    Seq::new(record.len(), |i: int| cell_of(record[i]))
}

/// What a cell reads back as, where a value of the same kind as `like` is
/// wanted; `None` where the cell is refused.
pub open spec fn read_like(like: Scalar, c: CellView) -> Option<Scalar> {
    match like {
        Scalar::Bool(_) => match bool_of(c) {
            Some(b) => Some(Scalar::Bool(b)),
            None => None,
        },
        Scalar::Unsigned(_) => match unsigned_of(c) {
            Some(n) => Some(Scalar::Unsigned(n)),
            None => None,
        },
        Scalar::Signed(_) => match signed_of(c) {
            Some(n) => Some(Scalar::Signed(n)),
            None => None,
        },
        Scalar::Float(_) => match c {
            CellView::Number(Number::Float(bits)) => Some(Scalar::Float(bits)),
            _ => None,
        },
        Scalar::Text(_) => match text_of(c) {
            Some(t) => Some(Scalar::Text(t)),
            None => None,
        },
        Scalar::Absent => if is_blank(c) {
            Some(Scalar::Absent)
        } else {
            None
        },
    }
}

/// Round trip. Writing a record of scalars and reading the cells back,
/// field by field, gives the record again, whatever the scalars are.
pub proof fn lemma_round_trip(record: Seq<Scalar>, i: int)
    requires
        0 <= i < record.len(),
    ensures
        written(record).len() == record.len(),
        read_like(record[i], written(record)[i]) == Some(record[i]),
{
    match record[i] {
        Scalar::Bool(b) => {},
        Scalar::Unsigned(n) => {},
        Scalar::Signed(n) => {},
        Scalar::Float(bits) => {},
        Scalar::Text(s) => {},
        Scalar::Absent => {},
    }
}

/// What reading a row field by field gives, for fields of the kinds of
/// `like`: each field reads the next cell and steps over it, as the reader
/// does; `None` where a cell is refused or the row runs out.
pub open spec fn read_row(like: Seq<Scalar>, cells: Seq<CellView>) -> Option<Seq<Scalar>>
    decreases like.len(),
{
    if like.len() == 0 {
        Some(Seq::empty())
    } else if cells.len() == 0 {
        None
    } else {
        match (read_like(like[0], cells[0]), read_row(like.skip(1), cells.skip(1))) {
            (Some(first), Some(rest)) => Some(seq![first] + rest),
            _ => None,
        }
    }
}

/// Round trip of a whole record. Writing a record of scalars and reading the
/// row back from its first cell on, one cell for each field, gives the record
/// again, whatever the scalars are.
pub proof fn lemma_round_trip_row(record: Seq<Scalar>)
    ensures
        read_row(record, written(record)) == Some(record),
    decreases record.len(),
{
    if record.len() == 0 {
        assert(record =~= Seq::<Scalar>::empty());
    } else {
        lemma_round_trip(record, 0);
        lemma_round_trip_row(record.skip(1));
        assert(written(record).skip(1) =~= written(record.skip(1)));
        assert(seq![record[0]] + record.skip(1) =~= record);
    }
}

/// Writes the cells of one row, one after another.
pub struct RowSerializer {
    data: Vec<Cell>,
    seq_began: bool,
}

impl RowSerializer {
    /// Whether a nested structure has begun in this row.
    pub closed spec fn began(&self) -> bool {
        self.seq_began
    }

    /// The cells written so far.
    pub closed spec fn cells(&self) -> Seq<CellView> {
        row_view(self.data@)
    }

    /// A writer with no cell written.
    pub fn new() -> (r: Self)
        ensures
            r.cells() == Seq::<CellView>::empty(),
            !r.began(),
    {
        let r = RowSerializer { data: Vec::new(), seq_began: false };
        assert(r.cells() =~= Seq::<CellView>::empty());
        r
    }

    /// The row that was written.
    pub fn into_row(self) -> (row: Vec<Cell>)
        ensures
            row_view(row@) == self.cells(),
    {
        self.data
    }

    /// Appends one cell.
    fn put(&mut self, cell: Cell)
        ensures
            final(self).cells() == old(self).cells().push(cell@),
            final(self).began() == old(self).began(),
    {
        self.data.push(cell);
        assert(self.cells() =~= old(self).cells().push(cell@));
    }

    /// Writes an unsigned number.
    pub fn serialize_u64(&mut self, v: u64) -> (r: Result<(), Error>)
        ensures
            r is Ok,
            final(self).cells() == old(self).cells().push(cell_of(Scalar::Unsigned(v))),
            final(self).began() == old(self).began(),
    {
        self.put(Cell::Number(Number::PosInt(v)));
        Ok(())
    }

    /// Writes a signed number.
    pub fn serialize_i64(&mut self, v: i64) -> (r: Result<(), Error>)
        ensures
            r is Ok,
            final(self).cells() == old(self).cells().push(cell_of(Scalar::Signed(v))),
            final(self).began() == old(self).began(),
    {
        if v >= 0 {
            self.put(Cell::Number(Number::PosInt(v as u64)));
        } else {
            self.put(Cell::Number(Number::NegInt(v)));
        }
        Ok(())
    }

    /// Writes a double, given by its bits.
    pub fn serialize_f64(&mut self, bits: u64) -> (r: Result<(), Error>)
        ensures
            r is Ok,
            final(self).cells() == old(self).cells().push(cell_of(Scalar::Float(bits))),
            final(self).began() == old(self).began(),
    {
        self.put(Cell::Number(Number::Float(bits)));
        Ok(())
    }

    /// Writes a text.
    pub fn serialize_str(&mut self, value: &str) -> (r: Result<(), Error>)
        ensures
            r is Ok,
            final(self).cells() == old(self).cells().push(cell_of(Scalar::Text(value@))),
            final(self).began() == old(self).began(),
    {
        self.put(Cell::String(value.to_owned()));
        Ok(())
    }

    /// Writes one character, as a text.
    pub fn serialize_char(&mut self, value: char) -> (r: Result<(), Error>)
        ensures
            r is Ok,
            final(self).cells() == old(self).cells().push(cell_of(Scalar::Text(seq![value]))),
            final(self).began() == old(self).began(),
    {
        let mut one: Vec<char> = Vec::new();
        one.push(value);
        assert(one@ =~= seq![value]);
        self.put(Cell::String(string_of(&one)));
        Ok(())
    }

    /// Writes a boolean.
    pub fn serialize_bool(&mut self, value: bool) -> (r: Result<(), Error>)
        ensures
            r is Ok,
            final(self).cells() == old(self).cells().push(cell_of(Scalar::Bool(value))),
            final(self).began() == old(self).began(),
    {
        self.put(Cell::Bool(value));
        Ok(())
    }

    /// Refuses bytes: a row holds none.
    pub fn serialize_bytes(&mut self, value: &[u8]) -> (r: Result<(), Error>)
        ensures
            r == Err::<(), Error>(Error::UnexpectedBytes),
            *final(self) == *old(self),
    {
        Err(Error::UnexpectedBytes)
    }

    /// Writes an absent optional value: an empty text.
    pub fn serialize_none(&mut self) -> (r: Result<(), Error>)
        ensures
            r is Ok,
            final(self).cells() == old(self).cells().push(cell_of(Scalar::Absent)),
            final(self).began() == old(self).began(),
    {
        self.put(Cell::String(String::new()));
        Ok(())
    }

    /// Writes a unit: an empty text.
    pub fn serialize_unit(&mut self) -> (r: Result<(), Error>)
        ensures
            r is Ok,
            final(self).cells() == old(self).cells().push(cell_of(Scalar::Absent)),
            final(self).began() == old(self).began(),
    {
        self.serialize_none()
    }

    /// Writes the variant of an enum without fields: its name, as a text.
    pub fn serialize_unit_variant(&mut self, variant: &str) -> (r: Result<(), Error>)
        ensures
            r is Ok,
            final(self).cells() == old(self).cells().push(cell_of(Scalar::Text(variant@))),
            final(self).began() == old(self).began(),
    {
        self.serialize_str(variant)
    }

    /// Begins the one nested structure that a row may hold: a sequence, a
    /// tuple or a struct. A second beginning in the same row is refused.
    pub fn serialize_seq(&mut self) -> (r: Result<(), Error>)
        ensures
            final(self).cells() == old(self).cells(),
            final(self).began(),
            r is Ok <==> !old(self).began(),
            r matches Err(e) ==> e == Error::UnexpectedSequence,
    {
        if !self.seq_began {
            self.seq_began = true;
            Ok(())
        } else {
            Err(Error::UnexpectedSequence)
        }
    }

    /// Refuses a map: a row holds none.
    pub fn serialize_map(&mut self) -> (r: Result<(), Error>)
        ensures
            r == Err::<(), Error>(Error::UnexpectedMap),
            *final(self) == *old(self),
    {
        Err(Error::UnexpectedMap)
    }
}

} // verus!
