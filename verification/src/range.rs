//! Regions of a spreadsheet and their textual references.
//!
//! A reference reads `Sheet!A2:D5`: the sheet's name, an exclamation mark, the
//! first column in letters and the first row, then after a colon the last
//! column and the last row. Rows may be left out; a reference without a colon
//! names one cell. In a region columns and rows count from zero and the end is
//! exclusive, so `Sheet!A2:D5` is columns 0 to 4 and rows 1 to 5.

use crate::pattern::{captures, regex_captures};
use crate::text::{
    all_digits, all_within, chars_of, decimal, decimal_value, lemma_decimal_reads_back,
    lemma_positional_nonnegative,
    parse_decimal, parse_positional, positional, push_decimal, string_of,
};
use vstd::prelude::*;

verus! {

/// Why a textual reference was refused.
#[derive(Debug)]
pub enum Error {
    /// The text is no reference, or its end lies before its start.
    InvalidRange(String),
    /// Reserved for bounds that a sheet cannot hold.
    InvalidRangeBounds(String),
}

impl Error {
    /// The message of this error.
    pub fn to_string(&self) -> (s: String)
        ensures
            s@ == self.message(),
    {
        match self {
            Error::InvalidRange(text) => {
                let mut out: String = "invalid range: ".to_owned();
                out.append(text.as_str());
                out
            },
            Error::InvalidRangeBounds(text) => {
                let mut out: String = "invalid range bounds: ".to_owned();
                out.append(text.as_str());
                out
            },
        }
    }

    /// The text that was refused.
    pub open spec fn text(&self) -> Seq<char> {
        match self {
            Error::InvalidRange(text) => text@,
            Error::InvalidRangeBounds(text) => text@,
        }
    }

    /// The message of this error, as a character sequence.
    pub open spec fn message(&self) -> Seq<char> {
        match self {
            Error::InvalidRange(text) => "invalid range: "@ + text@,
            Error::InvalidRangeBounds(text) => "invalid range bounds: "@ + text@,
        }
    }
}

/// A named rectangle of cells. Columns and rows count from zero; `c_end` and
/// `r_end` are exclusive, and a missing `r_end` means that the region has no
/// last row.
#[derive(Default, Clone)]
pub struct SheetRange {
    pub sheet_name: String,
    pub c_start: usize,
    pub r_start: usize,
    pub c_end: usize,
    pub r_end: Option<usize>,
}

/// A region with its sheet's name as a character sequence.
pub struct Region {
    pub sheet: Seq<char>,
    pub c_start: usize,
    pub r_start: usize,
    pub c_end: usize,
    pub r_end: Option<usize>,
}

impl View for SheetRange {
    type V = Region;

    open spec fn view(&self) -> Region {
        Region {
            sheet: self.sheet_name@,
            c_start: self.c_start,
            r_start: self.r_start,
            c_end: self.c_end,
            r_end: self.r_end,
        }
    }
}

/// The regular expression of a reference. Its groups: 1 the sheet's name, 2 the
/// first column, 3 the first row, 6 the last column, 7 the last row.
pub open spec fn a1_pattern() -> Seq<char> {
    "^(?<name>.*)!(?<c_start>[A-Z]+)(?<r_start>([1-9]\\d*)?)(:(?<c_end>[A-Z]+)(?<r_end>([1-9]\\d*)?))?$"@
}

/// Whether `s` is a column in letters: one or more of `A` to `Z`.
pub open spec fn is_column(s: Seq<char>) -> bool {
    s.len() > 0 && all_within(s, 65, 90)
}

/// The number of a column in letters, counting from one: base 26 without a
/// zero digit, `A` being 1 and `Z` 26.
pub open spec fn column_number(s: Seq<char>) -> int {
    positional(s, 26, 64)
}

/// The letters of the column with the given index, counting from zero.
pub open spec fn column_letters(index: nat) -> Seq<char>
    decreases index,
{
    if index < 26 {
        seq![((65 + index) as u8) as char]
    } else {
        column_letters((index / 26 - 1) as nat).push(((65 + index % 26) as u8) as char)
    }
}

/// The text of a group that may be missing.
pub open spec fn group_text(g: Option<Seq<char>>) -> Seq<char> {
    match g {
        Some(s) => s,
        None => Seq::empty(),
    }
}

/// Whether a row in digits can be read: digits only, and a number that fits.
pub open spec fn is_row(s: Seq<char>) -> bool {
    all_digits(s) && decimal_value(s) <= usize::MAX
}

/// The first column and the first row that the groups of a match give, both
/// counting from zero. A missing first row is row zero.
pub open spec fn start_of(groups: Seq<Option<Seq<char>>>) -> Option<(usize, usize)> {
    if groups.len() < 8 || groups[1] is None || groups[2] is None {
        None
    } else {
        let cols = groups[2]->0;
        let rows = group_text(groups[3]);
        if !is_column(cols) || column_number(cols) > usize::MAX || !is_row(rows) {
            None
        } else if rows.len() > 0 && decimal_value(rows) == 0 {
            None
        } else {
            Some(
                (
                    (column_number(cols) - 1) as usize,
                    if rows.len() > 0 {
                        (decimal_value(rows) - 1) as usize
                    } else {
                        0usize
                    },
                ),
            )
        }
    }
}

/// The exclusive last column and last row that the groups of a match give for
/// a region that starts at the given cell. Without a last column the region is
/// that one cell; with a last column and no last row it has no last row.
pub open spec fn end_of(groups: Seq<Option<Seq<char>>>, c_start: usize, r_start: usize) -> Option<
    (usize, Option<usize>),
> {
    if groups.len() < 8 {
        None
    } else {
        match groups[6] {
            Some(cols) => {
                let rows = group_text(groups[7]);
                if !is_column(cols) || column_number(cols) > usize::MAX || !is_row(rows) {
                    None
                } else {
                    Some(
                        (
                            column_number(cols) as usize,
                            if rows.len() > 0 {
                                Some(decimal_value(rows) as usize)
                            } else {
                                None
                            },
                        ),
                    )
                }
            },
            None => {
                if c_start == usize::MAX || r_start == usize::MAX {
                    None
                } else {
                    Some(((c_start + 1) as usize, Some((r_start + 1) as usize)))
                }
            },
        }
    }
}

/// The region that the groups of a match denote, or `None` where they denote
/// none: a part cannot be read, or the last column or row lies before the
/// first. As the ends are exclusive, a region has at least one column and,
/// where it has a last row, at least one row.
pub open spec fn region_of(groups: Seq<Option<Seq<char>>>) -> Option<Region> {
    match start_of(groups) {
        None => None,
        Some((c_start, r_start)) => match end_of(groups, c_start, r_start) {
            None => None,
            Some((c_end, r_end)) => {
                if c_end <= c_start || (r_end is Some && r_end->0 <= r_start) {
                    None
                } else {
                    Some(Region { sheet: groups[1]->0, c_start, r_start, c_end, r_end })
                }
            },
        },
    }
}

/// The region that a textual reference denotes, or `None` where the text is
/// refused.
pub open spec fn parsed(text: Seq<char>) -> Option<Region> {
    match regex_captures(a1_pattern(), text) {
        Some(Some(groups)) => region_of(groups),
        _ => None,
    }
}

/// The reference of a region in text.
pub open spec fn rendered(r: Region) -> Seq<char> {
    r.sheet + seq!['!'] + column_letters(r.c_start as nat) + decimal((r.r_start + 1) as nat)
        + seq![':'] + column_letters((r.c_end - 1) as nat) + match r.r_end {
        Some(row) => decimal(row as nat),
        None => Seq::empty(),
    }
}

/// Reads a column in letters. `None` where `s` is no column or its number does
/// not fit.
pub fn parse_column(s: &Vec<char>) -> (r: Option<usize>)
    ensures
        r is Some <==> is_column(s@) && column_number(s@) <= usize::MAX,
        r matches Some(n) ==> n == column_number(s@) && n >= 1,
{
    if s.len() == 0 {
        return None;
    }
    let r = parse_positional(s, 26, 64, 65, 90);
    proof {
        if all_within(s@, 65, 90) {
            lemma_column_positive(s@);
        }
    }
    r
}

/// The number of a column in letters is at least one.
pub proof fn lemma_column_positive(s: Seq<char>)
    requires
        is_column(s),
    ensures
        column_number(s) >= 1,
{
    assert(all_within(s.drop_last(), 65, 90)) by {
        assert forall|j: int| 0 <= j < s.drop_last().len() implies 65 <= (
        #[trigger] s.drop_last()[j]) as u32 <= 90 by {
            assert(s.drop_last()[j] == s[j]);
        }
    }
    lemma_positional_nonnegative(s.drop_last(), 26, 64, 65, 90);
    assert(65 <= s[s.len() - 1] as u32 <= 90);
}

/// The letters written for a column read back as that column: its number,
/// counting from one, is its index plus one.
pub proof fn lemma_column_reads_back(index: nat)
    ensures
        is_column(column_letters(index)),
        column_number(column_letters(index)) == index + 1,
    decreases index,
{
    if index < 26 {
        let s = column_letters(index);
        assert(s.drop_last() =~= Seq::<char>::empty());
        assert(positional(s.drop_last(), 26, 64) == 0);
        assert(s.last() as u32 == 65 + index);
    } else {
        let rest = (index / 26 - 1) as nat;
        lemma_column_reads_back(rest);
        let head = column_letters(rest);
        let s = column_letters(index);
        assert(s.drop_last() =~= head);
        assert(s.last() as u32 == 65 + index % 26);
        assert forall|i: int| 0 <= i < s.len() implies 65 <= (#[trigger] s[i]) as u32 <= 90 by {
            if i < head.len() {
                assert(s[i] == head[i]);
            }
        }
    }
}

/// The capture groups that hold the parts of a region as `rendered` writes
/// them: the sheet's name, the first column and row, the last column and row.
pub open spec fn groups_written(r: Region) -> Seq<Option<Seq<char>>> {
    seq![
        Some(rendered(r)),
        Some(r.sheet),
        Some(column_letters(r.c_start as nat)),
        Some(decimal((r.r_start + 1) as nat)),
        None,
        None,
        Some(column_letters((r.c_end - 1) as nat)),
        Some(
            match r.r_end {
                Some(row) => decimal(row as nat),
                None => Seq::empty(),
            },
        ),
        None,
    ]
}

/// Whether a region can be written and read back: its first row has a
/// number, it has at least one column and, where it has a last row, at least
/// one row.
pub open spec fn is_upright(r: Region) -> bool {
    &&& r.r_start < usize::MAX
    &&& r.c_start < r.c_end
    &&& r.r_end matches Some(row) ==> row > r.r_start
}

/// The parts that are written for a region read back as that region.
pub proof fn lemma_region_reads_back(r: Region)
    requires
        is_upright(r),
    ensures
        region_of(groups_written(r)) == Some(r),
{
    let groups = groups_written(r);
    lemma_column_reads_back(r.c_start as nat);
    lemma_decimal_reads_back((r.r_start + 1) as nat);
    lemma_column_reads_back((r.c_end - 1) as nat);
    match r.r_end {
        Some(row) => {
            lemma_decimal_reads_back(row as nat);
        },
        None => {
            assert(all_digits(Seq::<char>::empty()));
            assert(decimal_value(Seq::<char>::empty()) == 0);
        },
    }
    assert(groups.len() == 9);
    assert(groups[2]->0 == column_letters(r.c_start as nat));
    assert(group_text(groups[3]) == decimal((r.r_start + 1) as nat));
    assert(start_of(groups) == Some((r.c_start, r.r_start)));
    assert(groups[6] == Some(column_letters((r.c_end - 1) as nat)));
    assert(end_of(groups, r.c_start, r.r_start) == Some((r.c_end, r.r_end)));
}

/// Appends the letters of the column with the given index, counting from zero.
pub fn push_column(out: &mut Vec<char>, index: usize)
    ensures
        final(out)@ == old(out)@ + column_letters(index as nat),
    decreases index,
{
    if index < 26 {
        let code: u8 = 65u8 + (index as u8);
        out.push(code as char);
        assert(out@ =~= old(out)@ + column_letters(index as nat));
    } else {
        push_column(out, index / 26 - 1);
        let code: u8 = 65u8 + ((index % 26) as u8);
        out.push(code as char);
        assert(out@ =~= old(out)@ + column_letters(index as nat));
    }
}

/// The text of a group, empty where the group is missing.
fn group_chars(groups: &Vec<Option<String>>, i: usize) -> (v: Vec<char>)
    requires
        i < groups.len(),
    ensures
        v@ == group_text(crate::pattern::groups_view(groups@)[i as int]),
{
    match &groups[i] {
        Some(s) => chars_of(s.as_str()),
        None => Vec::new(),
    }
}

impl SheetRange {
    /// The same columns of the same sheet, over the rows from `r_start` to `r_end`.
    pub fn with_rows(&self, r_start: usize, r_end: usize) -> (r: Self)
        ensures
            r@ == (Region { r_start, r_end: Some(r_end), ..self@ }),
    {
        SheetRange {
            r_start,
            r_end: Some(r_end),
            c_start: self.c_start,
            c_end: self.c_end,
            sheet_name: self.sheet_name.clone(),
        }
    }

    /// The same rows of the same sheet, over the columns from `c_start` to `c_end`.
    pub fn with_cols(&self, c_start: usize, c_end: usize) -> (r: Self)
        ensures
            r@ == (Region { c_start, c_end, ..self@ }),
    {
        SheetRange {
            c_start,
            c_end,
            r_start: self.r_start,
            r_end: self.r_end,
            sheet_name: self.sheet_name.clone(),
        }
    }

    /// The same region without a last row.
    pub fn with_inf_end(&self) -> (r: Self)
        ensures
            r@ == (Region { r_end: None, ..self@ }),
    {
        SheetRange {
            r_end: None,
            c_end: self.c_end,
            r_start: self.r_start,
            c_start: self.c_start,
            sheet_name: self.sheet_name.clone(),
        }
    }

    /// The region that the capture groups of a matched reference denote.
    /// `text` is the reference itself, which the error carries.
    pub fn from_groups(text: &str, groups: &Vec<Option<String>>) -> (r: Result<Self, Error>)
        ensures
            match r {
                Ok(range) => region_of(crate::pattern::groups_view(groups@)) == Some(range@),
                Err(e) => region_of(crate::pattern::groups_view(groups@)) is None && e
                    is InvalidRange && e.text() == text@,
            },
    {
        let ghost gv = crate::pattern::groups_view(groups@);
        if groups.len() < 8 {
            return Err(Error::InvalidRange(text.to_owned()));
        }
        let sheet_name: String = match &groups[1] {
            Some(s) => s.clone(),
            None => {
                return Err(Error::InvalidRange(text.to_owned()));
            },
        };
        let cols: Vec<char> = match &groups[2] {
            Some(s) => chars_of(s.as_str()),
            None => {
                return Err(Error::InvalidRange(text.to_owned()));
            },
        };
        let rows: Vec<char> = group_chars(groups, 3);
        let c_first: usize = match parse_column(&cols) {
            Some(n) => n,
            None => {
                return Err(Error::InvalidRange(text.to_owned()));
            },
        };
        let r_first: usize = match parse_decimal(&rows) {
            Some(n) => n,
            None => {
                return Err(Error::InvalidRange(text.to_owned()));
            },
        };
        if rows.len() > 0 && r_first == 0 {
            return Err(Error::InvalidRange(text.to_owned()));
        }
        let c_start: usize = c_first - 1;
        let r_start: usize = if rows.len() > 0 {
            r_first - 1
        } else {
            0
        };
        assert(start_of(gv) == Some((c_start, r_start)));
        let c_end: usize;
        let r_end: Option<usize>;
        match &groups[6] {
            Some(s) => {
                let end_cols: Vec<char> = chars_of(s.as_str());
                let end_rows: Vec<char> = group_chars(groups, 7);
                c_end =
                match parse_column(&end_cols) {
                    Some(n) => n,
                    None => {
                        return Err(Error::InvalidRange(text.to_owned()));
                    },
                };
                let last: usize = match parse_decimal(&end_rows) {
                    Some(n) => n,
                    None => {
                        return Err(Error::InvalidRange(text.to_owned()));
                    },
                };
                r_end = if end_rows.len() > 0 {
                    Some(last)
                } else {
                    None
                };
            },
            None => {
                if r_start == usize::MAX {
                    return Err(Error::InvalidRange(text.to_owned()));
                }
                c_end = c_start + 1;
                r_end = Some(r_start + 1);
            },
        }
        assert(end_of(gv, c_start, r_start) == Some((c_end, r_end)));
        let no_row: bool = match r_end {
            Some(row) => row <= r_start,
            None => false,
        };
        if c_end <= c_start || no_row {
            return Err(Error::InvalidRange(text.to_owned()));
        }
        Ok(SheetRange { sheet_name, c_start, r_start, c_end, r_end })
    }

    /// Reads a textual reference such as `Sheet!A2:D5`, `Sheet!A2:D` or
    /// `Sheet!A1`. The text is refused where it is no reference, where a number
    /// in it does not fit, and where its end lies before its start.
    pub fn from_str(s: &str) -> (r: Result<Self, Error>)
        ensures
            match r {
                Ok(range) => parsed(s@) == Some(range@),
                Err(e) => parsed(s@) is None && e is InvalidRange && e.text() == s@,
            },
    {
        let pattern: &str =
            "^(?<name>.*)!(?<c_start>[A-Z]+)(?<r_start>([1-9]\\d*)?)(:(?<c_end>[A-Z]+)(?<r_end>([1-9]\\d*)?))?$";
        match captures(pattern, s) {
            Some(Some(groups)) => Self::from_groups(s, &groups),
            _ => Err(Error::InvalidRange(s.to_owned())),
        }
    }

    /// Whether the region has a reference in text: it has a last column, and
    /// its first row has a number.
    pub open spec fn has_reference(&self) -> bool {
        self.c_end >= 1 && self.r_start < usize::MAX
    }

    /// The reference of this region in text, such as `Sheet!B2:E5`.
    pub fn to_string(&self) -> (s: String)
        requires
            self.has_reference(),
        ensures
            s@ == rendered(self@),
    {
        let mut out: Vec<char> = chars_of(self.sheet_name.as_str());
        out.push('!');
        push_column(&mut out, self.c_start);
        push_decimal(&mut out, (self.r_start + 1) as u64);
        out.push(':');
        push_column(&mut out, self.c_end - 1);
        match self.r_end {
            Some(row) => {
                push_decimal(&mut out, row as u64);
            },
            None => {},
        }
        assert(out@ =~= rendered(self@));
        string_of(&out)
    }
}

impl core::str::FromStr for SheetRange {
    type Err = Error;

    /// Reads a textual reference, as `SheetRange::from_str` does.
    fn from_str(s: &str) -> (r: Result<Self, Error>)
        ensures
            match r {
                Ok(range) => parsed(s@) == Some(range@),
                Err(e) => parsed(s@) is None && e is InvalidRange && e.text() == s@,
            },
    {
        SheetRange::from_str(s)
    }
}

} // verus!
