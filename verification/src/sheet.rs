//! The origin adapter: records kept in a rectangular region of a remote
//! spreadsheet.
//!
//! The adapter decides and the caller performs. It says which reference to
//! read, turns what came back into a version or a row number, and builds the
//! batch of edits that appends or overwrites rows. Talking to the remote
//! service is left to the caller.

use crate::cell::{row_view, rows_view, Cell, CellView};
use crate::pattern::{captures, groups_view, regex_captures};
use crate::range::{Region, SheetRange};
use crate::row::{Nesting, RowDeserializer};
use crate::text::{all_digits, chars_of, decimal_value, parse_decimal};
use crate::version::{stamped, version_after, VersionGen};
use vstd::prelude::*;

verus! {

/// Why the adapter failed.
#[derive(Debug)]
pub enum Error {
    /// The remote service answered with something that cannot be used.
    InvalidResponse,
    /// The meta cell was asked for and none came back.
    InvalidMeta,
    /// The remote service reported a failure; this is its message.
    Sheets(String),
    /// A row could not be written or read.
    Serde(crate::row::Error),
}

impl Error {
    /// The message of this error, as a character sequence.
    pub open spec fn message(&self) -> Seq<char> {
        match self {
            Error::InvalidResponse => "invalid response"@,
            Error::InvalidMeta => "invalid meta"@,
            Error::Sheets(e) => "sheets error: "@ + e@,
            Error::Serde(e) => "serde error: "@ + e.message(),
        }
    }

    /// The message of this error.
    pub fn to_string(&self) -> (s: String)
        ensures
            s@ == self.message(),
    {
        match self {
            Error::InvalidResponse => "invalid response".to_owned(),
            Error::InvalidMeta => "invalid meta".to_owned(),
            Error::Sheets(e) => {
                let mut out: String = "sheets error: ".to_owned();
                out.append(e.as_str());
                out
            },
            Error::Serde(e) => {
                let mut out: String = "serde error: ".to_owned();
                let inner: String = e.to_string();
                out.append(inner.as_str());
                out
            },
        }
    }
}

/// Where the records of one table live: the sheet's id, the region of the
/// data, the region whose formatting new rows take over, and the cell that
/// holds the fingerprint of the data, if there is one.
#[derive(Default, Clone)]
pub struct SheetArgs {
    pub id: i32,
    pub data_range: SheetRange,
    pub format_range: SheetRange,
    pub meta_range: Option<SheetRange>,
}

impl SheetArgs {
    /// The configuration of a table. Without a region for the formatting the
    /// data region serves as one.
    pub fn new(
        id: i32,
        data_range: SheetRange,
        format_range: Option<SheetRange>,
        meta_range: Option<SheetRange>,
    ) -> (args: Self)
        ensures
            args.id == id,
            args.data_range == data_range,
            args.meta_range == meta_range,
            args.format_range@ == match format_range {
                Some(r) => r@,
                None => data_range@,
            },
    {
        let format_range: SheetRange = match format_range {
            Some(r) => r,
            None => data_range.with_cols(data_range.c_start, data_range.c_end),
        };
        SheetArgs { id, data_range, format_range, meta_range }
    }
}

/// The record of the meta cell: a fingerprint of the data, compared for
/// equality only.
#[derive(Debug)]
pub struct MetaEntry {
    pub hash: String,
}

/// The message with which a meta row without cells is refused.
pub open spec fn meta_missing() -> Seq<char> {
    "invalid length 0, expected struct MetaEntry with 1 element"@
}

/// The fingerprint that a meta row holds: the text of its first cell.
pub open spec fn meta_hash(row: Seq<CellView>) -> Option<Seq<char>> {
    if row.len() == 0 {
        None
    } else {
        crate::row::text_of(row[0])
    }
}

impl MetaEntry {
    /// Reads the record of the meta cell from its row.
    pub fn from_row(row: Vec<Cell>) -> (r: Result<MetaEntry, crate::row::Error>)
        ensures
            match r {
                Ok(meta) => meta_hash(row_view(row@)) == Some(meta.hash@),
                Err(e) => meta_hash(row_view(row@)) is None && if row@.len() == 0 {
                    e is Custom && e->Custom_0@ == meta_missing()
                } else {
                    e == crate::row::Error::ExpectedString
                },
            },
    {
        let mut reader: RowDeserializer = RowDeserializer::new(row);
        match reader.begin(Nesting::Struct, "MetaEntry") {
            Ok(()) => {},
            Err(e) => {
                return Err(e);
            },
        }
        if reader.is_empty() {
            return Err(
                crate::row::Error::Custom(
                    "invalid length 0, expected struct MetaEntry with 1 element".to_owned(),
                ),
            );
        }
        match reader.parse_str() {
            Ok(hash) => Ok(MetaEntry { hash }),
            Err(e) => Err(e),
        }
    }
}

/// A rectangle of cells by index, as an edit addresses it. Ends are
/// exclusive; a missing last row means every row from the first on.
#[derive(Clone, Copy, Debug, PartialEq, Eq, Structural)]
pub struct GridRange {
    pub sheet_id: i32,
    pub start_column_index: i32,
    pub end_column_index: i32,
    pub start_row_index: i32,
    pub end_row_index: Option<i32>,
}

/// The index that an edit carries for a position: its low 32 bits, read as a
/// signed number.
pub open spec fn index_of(position: usize) -> i32 {
    position as i32
}

/// The rectangle of a region on the sheet with the given id.
pub open spec fn grid_of(r: Region, sheet_id: i32) -> GridRange {
    GridRange {
        sheet_id,
        start_column_index: index_of(r.c_start),
        end_column_index: index_of(r.c_end),
        start_row_index: index_of(r.r_start),
        end_row_index: match r.r_end {
            Some(row) => Some(index_of(row)),
            None => None,
        },
    }
}

/// The index that an edit carries for a position.
fn to_index(position: usize) -> (i: i32)
    ensures
        i == index_of(position),
{
    #[verifier::truncate]
    (position as i32)
}

/// Whether the columns of a region fit an edit.
fn columns_in_reach(range: &SheetRange) -> (b: bool)
    ensures
        b == columns_fit(range@),
{
    range.c_start <= 0x7fff_ffff && range.c_end <= 0x7fff_ffff
}

impl SheetRange {
    /// The rectangle of this region on the sheet with the given id. Indices
    /// that do not fit 32 bits are cut to their low bits; `fits_edit` tells
    /// whether none is.
    pub fn as_grid_range(&self, sheet_id: i32) -> (g: GridRange)
        ensures
            g == grid_of(self@, sheet_id),
    {
        GridRange {
            sheet_id,
            start_column_index: to_index(self.c_start),
            end_column_index: to_index(self.c_end),
            start_row_index: to_index(self.r_start),
            end_row_index: match self.r_end {
                Some(row) => Some(to_index(row)),
                None => None,
            },
        }
    }
}

/// How the source of a copy is pasted: everything, or the data validation
/// only.
#[derive(Clone, Copy, Debug, PartialEq, Eq, Structural)]
pub enum PasteType {
    Normal,
    DataValidation,
}

/// One edit of a batch.
#[derive(Debug)]
pub enum Request {
    /// Insert empty rows before `start_index`, up to `end_index`.
    InsertRows { sheet_id: i32, start_index: i32, end_index: i32, inherit_from_before: bool },
    /// Copy `source` over `destination`.
    CopyPaste { source: GridRange, destination: GridRange, paste_type: PasteType },
    /// Write the entered values of `rows` into `range`.
    UpdateCells { range: GridRange, rows: Vec<Vec<Cell>> },
}

/// An edit with its cells as `rows_view` gives them.
pub enum RequestView {
    InsertRows { sheet_id: i32, start_index: i32, end_index: i32, inherit_from_before: bool },
    CopyPaste { source: GridRange, destination: GridRange, paste_type: PasteType },
    UpdateCells { range: GridRange, rows: Seq<Seq<CellView>> },
}

impl View for Request {
    type V = RequestView;

    open spec fn view(&self) -> RequestView {
        match self {
            Request::InsertRows { sheet_id, start_index, end_index, inherit_from_before } => {
                RequestView::InsertRows {
                    sheet_id: *sheet_id,
                    start_index: *start_index,
                    end_index: *end_index,
                    inherit_from_before: *inherit_from_before,
                }
            },
            Request::CopyPaste { source, destination, paste_type } => RequestView::CopyPaste {
                source: *source,
                destination: *destination,
                paste_type: *paste_type,
            },
            Request::UpdateCells { range, rows } => RequestView::UpdateCells {
                range: *range,
                rows: rows_view(rows@),
            },
        }
    }
}

/// The edits of a batch, each by its view.
pub open spec fn batch_view(batch: Seq<Request>) -> Seq<RequestView> {
    Seq::new(batch.len(), |i: int| batch[i]@)
}

/// Whether the columns of a region fit an edit, which carries indices of 32
/// bits.
pub open spec fn columns_fit(r: Region) -> bool {
    r.c_start <= i32::MAX && r.c_end <= i32::MAX
}

/// Whether every index of a region fits an edit, so that the rectangle of
/// the region carries them as they are.
pub open spec fn fits_edit(r: Region) -> bool {
    columns_fit(r) && r.r_start <= i32::MAX && (r.r_end matches Some(row) ==> row <= i32::MAX)
}

/// The rectangle of a region that fits an edit carries the indices of the
/// region as they are.
pub proof fn lemma_grid_is_exact(r: Region, sheet_id: i32)
    requires
        fits_edit(r),
    ensures
        grid_of(r, sheet_id).start_column_index == r.c_start,
        grid_of(r, sheet_id).end_column_index == r.c_end,
        grid_of(r, sheet_id).start_row_index == r.r_start,
        r.r_end matches Some(row) ==> grid_of(r, sheet_id).end_row_index == Some(row as i32)
            && row as i32 == row,
        r.r_end is None ==> grid_of(r, sheet_id).end_row_index is None,
{
}

/// Whether `count` rows can be appended from row `row_from` on to a table
/// with the given regions for data and formatting: there is a row above to
/// take the formatting from, and every index fits an edit.
pub open spec fn can_extend(data: Region, format: Region, row_from: usize, count: nat) -> bool {
    row_from >= 1 && row_from + count < i32::MAX && columns_fit(data) && columns_fit(format)
}

/// Whether `count` records can be overwritten from position `from_row` on in
/// a table with the given region for its data: every index fits an edit.
pub open spec fn can_update(data: Region, from_row: usize, count: nat) -> bool {
    from_row + data.r_start + count <= i32::MAX && columns_fit(data)
}

/// The batch that appends `rows` from row `row_from` on: insert the rows, copy
/// the formatting of the row above over them, write the values, then copy the
/// data validation of the row above.
pub open spec fn extend_batch(
    id: i32,
    data: Region,
    format: Region,
    row_from: usize,
    rows: Seq<Seq<CellView>>,
) -> Seq<RequestView> {
    let row_to = (row_from + rows.len()) as usize;
    let target = grid_of(Region { r_start: row_from, r_end: Some(row_to), ..format }, id);
    let source = grid_of(
        Region { r_start: (row_from - 1) as usize, r_end: Some(row_from), ..format },
        id,
    );
    seq![
        RequestView::InsertRows {
            sheet_id: id,
            start_index: (1 + row_from) as i32,
            end_index: (1 + row_to) as i32,
            inherit_from_before: false,
        },
        RequestView::CopyPaste { source, destination: target, paste_type: PasteType::Normal },
        RequestView::UpdateCells {
            range: grid_of(Region { r_start: row_from, r_end: Some(row_to), ..data }, id),
            rows,
        },
        RequestView::CopyPaste {
            source,
            destination: target,
            paste_type: PasteType::DataValidation,
        },
    ]
}

/// The batch that overwrites the rows from `first` on with `rows`.
pub open spec fn update_batch(id: i32, data: Region, first: usize, rows: Seq<Seq<CellView>>) -> Seq<
    RequestView,
> {
    seq![
        RequestView::UpdateCells {
            range: grid_of(
                Region { r_start: first, r_end: Some((first + rows.len()) as usize), ..data },
                id,
            ),
            rows,
        },
    ]
}

/// The regular expression of the range that an append reports. Its group 1
/// is the last row of the table.
pub open spec fn last_row_pattern() -> Seq<char> {
    "^.*![A-Z]+\\d+:[A-Z]+(\\d+)$"@
}

/// The last row that the groups of a matched range give.
pub open spec fn last_row_of(groups: Seq<Option<Seq<char>>>) -> Option<usize> {
    if groups.len() < 2 || groups[1] is None {
        None
    } else {
        let digits = groups[1]->0;
        if digits.len() > 0 && all_digits(digits) && decimal_value(digits) <= usize::MAX {
            Some(decimal_value(digits) as usize)
        } else {
            None
        }
    }
}

/// The row after the last row of the table, as the range that an append
/// reported tells it; the first data row where no range was reported.
pub open spec fn next_free_row(first: usize, table_range: Option<Seq<char>>) -> Option<usize> {
    match table_range {
        None => Some(first),
        Some(text) => match regex_captures(last_row_pattern(), text) {
            Some(Some(groups)) => last_row_of(groups),
            _ => None,
        },
    }
}

/// The last row that the groups of a matched range give.
pub fn last_row_from_groups(groups: &Vec<Option<String>>) -> (r: Result<usize, Error>)
    ensures
        match r {
            Ok(row) => last_row_of(groups_view(groups@)) == Some(row),
            Err(e) => last_row_of(groups_view(groups@)) is None && e == Error::InvalidResponse,
        },
{
    if groups.len() < 2 {
        return Err(Error::InvalidResponse);
    }
    match &groups[1] {
        None => Err(Error::InvalidResponse),
        Some(s) => {
            let digits: Vec<char> = chars_of(s.as_str());
            if digits.len() == 0 {
                return Err(Error::InvalidResponse);
            }
            match parse_decimal(&digits) {
                Some(row) => Ok(row),
                None => Err(Error::InvalidResponse),
            }
        },
    }
}

/// The records that could be read, in the order of their rows; a row that
/// could not be read is left out.
pub open spec fn readable<E>(decoded: Seq<Result<E, crate::row::Error>>) -> Seq<E>
    decreases decoded.len(),
{
    if decoded.len() == 0 {
        Seq::empty()
    } else {
        match decoded.last() {
            Ok(e) => readable(decoded.drop_last()).push(e),
            Err(_) => readable(decoded.drop_last()),
        }
    }
}

/// Keeps the records that could be read, in the order of their rows, and
/// drops every row that could not be read. No rows at all give no records.
pub fn collect_rows<E>(decoded: Option<Vec<Result<E, crate::row::Error>>>) -> (rows: Vec<E>)
    ensures
        rows@ == match decoded {
            Some(d) => readable(d@),
            None => Seq::empty(),
        },
{
    let mut out: Vec<E> = Vec::new();
    match decoded {
        None => {},
        Some(d) => {
            let ghost all = d@;
            for item in it: d
                invariant
                    it.seq() == all,
                    out@ == readable(all.take(it.index() as int)),
            {
                proof {
                    assert(all.take(it.index() + 1).drop_last() =~= all.take(it.index() as int));
                }
                match item {
                    Ok(e) => {
                        out.push(e);
                    },
                    Err(_) => {},
                }
            }
            proof {
                assert(all.take(all.len() as int) =~= all);
            }
        },
    }
    out
}

/// The adapter's own state: which spreadsheet and which regions, the version
/// it reports, and the fingerprint it last saw in the meta cell.
#[derive(Clone)]
pub struct Sheet {
    spreadsheet_id: String,
    args: SheetArgs,
    version: u64,
    version_hash: String,
}

impl Sheet {
    /// The version that the adapter reports.
    pub closed spec fn version_spec(&self) -> u64 {
        self.version
    }

    /// The fingerprint that the adapter last saw.
    pub closed spec fn hash_spec(&self) -> Seq<char> {
        self.version_hash@
    }

    /// The configuration of the adapter.
    pub closed spec fn args_spec(&self) -> SheetArgs {
        self.args
    }

    /// The id of the spreadsheet.
    pub closed spec fn id_spec(&self) -> Seq<char> {
        self.spreadsheet_id@
    }

    /// An adapter that has seen nothing yet: version zero, no fingerprint.
    pub fn new(spreadsheet_id: String, args: SheetArgs) -> (sheet: Self)
        ensures
            sheet.id_spec() == spreadsheet_id@,
            sheet.args_spec() == args,
            sheet.version_spec() == 0,
            sheet.hash_spec() == Seq::<char>::empty(),
    {
        Sheet { spreadsheet_id, args, version: 0, version_hash: String::new() }
    }

    /// The id of the spreadsheet.
    pub fn spreadsheet_id(&self) -> (id: &String)
        ensures
            id@ == self.id_spec(),
    {
        &self.spreadsheet_id
    }

    /// The configuration of the adapter.
    pub fn args(&self) -> (args: &SheetArgs)
        ensures
            *args == self.args_spec(),
    {
        &self.args
    }

    /// The version that the adapter reports, as of the last look at the meta
    /// cell.
    pub fn version(&self) -> (v: u64)
        ensures
            v == self.version_spec(),
    {
        self.version
    }

    /// The reference to read for all the data: the data region without a last
    /// row. `None` where the region has no reference.
    pub fn data_reference(&self) -> (r: Option<String>)
        ensures
            match r {
                Some(text) => self.args_spec().data_range.has_reference() && text@
                    == crate::range::rendered(
                    Region { r_end: None, ..self.args_spec().data_range@ },
                ),
                None => !self.args_spec().data_range.has_reference(),
            },
    {
        let open_ended: SheetRange = self.args.data_range.with_inf_end();
        if open_ended.c_end >= 1 && open_ended.r_start < usize::MAX {
            Some(open_ended.to_string())
        } else {
            None
        }
    }

    /// The reference to read for the fingerprint: that of the meta cell.
    /// `None` where no meta cell is configured or it has no reference.
    pub fn meta_reference(&self) -> (r: Option<String>)
        ensures
            match r {
                Some(text) => self.args_spec().meta_range is Some
                    && self.args_spec().meta_range->0.has_reference() && text@
                    == crate::range::rendered(self.args_spec().meta_range->0@),
                None => self.args_spec().meta_range is None
                    || !self.args_spec().meta_range->0.has_reference(),
            },
    {
        match &self.args.meta_range {
            Some(range) => {
                if range.c_end >= 1 && range.r_start < usize::MAX {
                    Some(range.to_string())
                } else {
                    None
                }
            },
            None => None,
        }
    }

    /// Whether a meta cell is configured.
    pub fn has_meta(&self) -> (b: bool)
        ensures
            b == self.args_spec().meta_range is Some,
    {
        self.args.meta_range.is_some()
    }

    /// The row after the last row of the table, given the range that an
    /// append of nothing reported: the last row of that range, or the first
    /// data row where no range was reported.
    pub fn fetch_last_available_row(&self, table_range: Option<&str>) -> (r: Result<usize, Error>)
        ensures
            match r {
                Ok(row) => next_free_row(
                    self.args_spec().data_range.r_start,
                    match table_range {
                        Some(t) => Some(t@),
                        None => None,
                    },
                ) == Some(row),
                Err(e) => e == Error::InvalidResponse && next_free_row(
                    self.args_spec().data_range.r_start,
                    match table_range {
                        Some(t) => Some(t@),
                        None => None,
                    },
                ) is None,
            },
    {
        match table_range {
            None => Ok(self.args.data_range.r_start),
            Some(text) => match captures("^.*![A-Z]+\\d+:[A-Z]+(\\d+)$", text) {
                Some(Some(groups)) => last_row_from_groups(&groups),
                _ => Err(Error::InvalidResponse),
            },
        }
    }

    /// Takes in what the meta cell holds and settles the version.
    ///
    /// Without a meta cell the data counts as changed at every look: the
    /// version is a new one, whatever `values` holds. With a meta cell,
    /// `values` is what reading its reference gave: no rows stand for an empty
    /// fingerprint, else the first row holds the fingerprint. The version is a
    /// new one where the fingerprint differs from the last one seen, and stays
    /// where it is the same. A new version is larger than the one before,
    /// whatever the generator hands out, for every adapter but one at the
    /// largest version of all.
    pub fn fetch_version(&mut self, gen: &mut VersionGen, values: Option<Vec<Vec<Cell>>>) -> (r:
        Result<(), Error>)
        ensures
            final(self).args_spec() == old(self).args_spec(),
            final(self).id_spec() == old(self).id_spec(),
            r is Ok && counts_as_changed(
                seen_hash(old(self).args_spec().meta_range is Some, values),
                old(self).hash_spec(),
            ) && old(self).version_spec() < u64::MAX ==> final(self).version_spec() > old(
                self,
            ).version_spec(),
            match r {
                Ok(()) => match seen_hash(old(self).args_spec().meta_range is Some, values) {
                    Seen::Always => final(self).version_spec() == stamped(
                        old(self).version_spec(),
                        old(gen).peek(),
                    ) && final(gen).peek() == crate::version::bumped(old(gen).peek()) && final(self).hash_spec() == old(self).hash_spec(),
                    Seen::Hash(h) => final(self).hash_spec() == h && if h == old(self).hash_spec() {
                        final(self).version_spec() == old(self).version_spec() && final(gen).peek() == old(gen).peek()
                    } else {
                        final(self).version_spec() == stamped(
                            old(self).version_spec(),
                            old(gen).peek(),
                        ) && final(gen).peek() == crate::version::bumped(old(gen).peek())
                    },
                    _ => false,
                },
                Err(e) => final(self).version_spec() == old(self).version_spec() && final(self).hash_spec() == old(self).hash_spec() && final(gen).peek() == old(gen).peek()
                    && match seen_hash(old(self).args_spec().meta_range is Some, values) {
                    Seen::NoRow => e == Error::InvalidMeta,
                    Seen::Unreadable => e is Serde && if values->0@[0]@.len() == 0 {
                        e->Serde_0 is Custom && e->Serde_0->Custom_0@ == meta_missing()
                    } else {
                        e->Serde_0 == crate::row::Error::ExpectedString
                    },
                    _ => false,
                },
            },
    {
        if self.args.meta_range.is_none() {
            self.version = version_after(gen, self.version);
            return Ok(());
        }
        let meta_hash: String = match values {
            Some(mut rows) => {
                if rows.len() == 0 {
                    return Err(Error::InvalidMeta);
                }
                let ghost all = rows@;
                let row: Vec<Cell> = rows.swap_remove(0);
                match MetaEntry::from_row(row) {
                    Ok(meta) => meta.hash,
                    Err(e) => {
                        return Err(Error::Serde(e));
                    },
                }
            },
            None => String::new(),
        };
        if meta_hash != self.version_hash {
            self.version = version_after(gen, self.version);
            self.version_hash = meta_hash;
        }
        Ok(())
    }

    /// The batch of edits that appends `rows` from row `row_from` on, where
    /// `row_from` is the row after the last row of the table. Rows and
    /// columns whose indices do not fit an edit are refused.
    pub fn extend_impl(&self, row_from: usize, rows: Vec<Vec<Cell>>) -> (r: Result<
        Vec<Request>,
        Error,
    >)
        ensures
            match r {
                Ok(batch) => can_extend(
                    self.args_spec().data_range@,
                    self.args_spec().format_range@,
                    row_from,
                    rows@.len(),
                ) && batch_view(batch@) == extend_batch(
                    self.args_spec().id,
                    self.args_spec().data_range@,
                    self.args_spec().format_range@,
                    row_from,
                    rows_view(rows@),
                ),
                Err(e) => !can_extend(
                    self.args_spec().data_range@,
                    self.args_spec().format_range@,
                    row_from,
                    rows@.len(),
                ) && e == Error::InvalidResponse,
            },
    {
        if row_from == 0 || row_from >= 0x7fff_ffff || rows.len() >= 0x7fff_ffff - row_from {
            return Err(Error::InvalidResponse);
        }
        if !columns_in_reach(&self.args.data_range) || !columns_in_reach(&self.args.format_range) {
            return Err(Error::InvalidResponse);
        }
        let row_to: usize = row_from + rows.len();
        let id: i32 = self.args.id;
        let data_range: GridRange = self.args.data_range.with_rows(row_from, row_to).as_grid_range(
            id,
        );
        let format_range: GridRange = self.args.format_range.with_rows(
            row_from,
            row_to,
        ).as_grid_range(id);
        let insert_dimension: Request = Request::InsertRows {
            sheet_id: id,
            start_index: 1 + to_index(row_from),
            end_index: 1 + to_index(row_to),
            inherit_from_before: false,
        };
        let source_range: GridRange = self.args.format_range.with_rows(
            row_from - 1,
            row_from,
        ).as_grid_range(id);
        let paste_normal: Request = Request::CopyPaste {
            source: source_range,
            destination: format_range,
            paste_type: PasteType::Normal,
        };
        let paste_data_validation: Request = Request::CopyPaste {
            source: source_range,
            destination: format_range,
            paste_type: PasteType::DataValidation,
        };
        let ghost cells = rows_view(rows@);
        let update_cells: Request = Request::UpdateCells { range: data_range, rows };
        let mut batch: Vec<Request> = Vec::new();
        batch.push(insert_dimension);
        batch.push(paste_normal);
        batch.push(update_cells);
        batch.push(paste_data_validation);
        proof {
            assert(batch_view(batch@) =~= extend_batch(
                self.args_spec().id,
                self.args_spec().data_range@,
                self.args_spec().format_range@,
                row_from,
                cells,
            ));
        }
        Ok(batch)
    }

    /// The batch of edits that overwrites the records from position
    /// `from_row` on with `rows`. Positions count from the first data row.
    /// Rows and columns whose indices do not fit an edit are refused.
    pub fn update_impl(&self, from_row: usize, rows: Vec<Vec<Cell>>) -> (r: Result<
        Vec<Request>,
        Error,
    >)
        ensures
            match r {
                Ok(batch) => can_update(self.args_spec().data_range@, from_row, rows@.len())
                    && batch_view(batch@) == update_batch(
                    self.args_spec().id,
                    self.args_spec().data_range@,
                    (from_row + self.args_spec().data_range.r_start) as usize,
                    rows_view(rows@),
                ),
                Err(e) => !can_update(self.args_spec().data_range@, from_row, rows@.len()) && e
                    == Error::InvalidResponse,
            },
    {
        let first: usize = match from_row.checked_add(self.args.data_range.r_start) {
            Some(v) => v,
            None => {
                return Err(Error::InvalidResponse);
            },
        };
        let last: usize = match first.checked_add(rows.len()) {
            Some(v) => v,
            None => {
                return Err(Error::InvalidResponse);
            },
        };
        if last > 0x7fff_ffff || !columns_in_reach(&self.args.data_range) {
            return Err(Error::InvalidResponse);
        }
        let range: GridRange = self.args.data_range.with_rows(first, last).as_grid_range(
            self.args.id,
        );
        let ghost cells = rows_view(rows@);
        let mut batch: Vec<Request> = Vec::new();
        batch.push(Request::UpdateCells { range, rows });
        proof {
            assert(batch_view(batch@) =~= update_batch(
                self.args_spec().id,
                self.args_spec().data_range@,
                first,
                cells,
            ));
        }
        Ok(batch)
    }
}

/// What a look at the meta cell shows.
pub enum Seen {
    /// No meta cell is configured: the data counts as changed.
    Always,
    /// The fingerprint that the meta cell holds.
    Hash(Seq<char>),
    /// Rows were handed in and there is none.
    NoRow,
    /// The first row holds no fingerprint.
    Unreadable,
}

/// Whether a look counts as a change of the data: there is no meta cell, or
/// the fingerprint is another than the last one seen.
pub open spec fn counts_as_changed(seen: Seen, last: Seq<char>) -> bool {
    match seen {
        Seen::Always => true,
        Seen::Hash(h) => h != last,
        _ => false,
    }
}

/// What a look at the meta cell shows, given whether one is configured and
/// what reading it gave.
pub open spec fn seen_hash(has_meta: bool, values: Option<Vec<Vec<Cell>>>) -> Seen {
    if !has_meta {
        Seen::Always
    } else {
        match values {
            None => Seen::Hash(Seq::empty()),
            Some(rows) => if rows@.len() == 0 {
                Seen::NoRow
            } else {
                match meta_hash(row_view(rows@[0]@)) {
                    Some(h) => Seen::Hash(h),
                    None => Seen::Unreadable,
                }
            },
        }
    }
}

} // verus!
