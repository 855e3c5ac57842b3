//! Compiled terminfo entries: header layout, capability strings, padding
//! markers and terminal names.

use std::borrow::Cow;

use vstd::prelude::*;
use vstd::string::StringSliceAdditionalSpecFns;

verus! {

/// Magic number of a compiled entry with 16-bit numbers.
pub const MAGIC_STANDARD: u16 = 0o0432;

/// Magic number of a compiled entry with 32-bit numbers.
pub const MAGIC_EXTENDED: u16 = 0o01036;

/// Largest compiled entry that is accepted, in bytes.
pub const MAX_ENTRY_SIZE: usize = 32_768;

/// Index of the `is1` string capability.
pub const STRING_IS1: usize = 48;
/// Index of the `is2` string capability.
pub const STRING_IS2: usize = 49;
/// Index of the `is3` string capability.
pub const STRING_IS3: usize = 50;
/// Index of the `rs1` string capability.
pub const STRING_RS1: usize = 122;
/// Index of the `rs2` string capability.
pub const STRING_RS2: usize = 123;
/// Index of the `rs3` string capability.
pub const STRING_RS3: usize = 124;
/// Index of the `clear_margins` string capability.
pub const STRING_CLEAR_MARGINS: usize = 270;

/// Why a compiled terminfo entry could not be found or used.
#[derive(Clone, Copy, Debug, PartialEq, Eq, Structural)]
pub enum Error {
    /// `TERM` cannot name a terminfo entry safely.
    InvalidTermName,
    /// No compiled entry was found.
    NotFound,
    /// The entry is smaller than its header.
    TooSmall,
    /// The entry starts with an unknown magic number.
    BadMagic,
    /// The entry ends before a section that its header declares.
    Truncated,
    /// A string offset points outside the string table.
    BadStringOffset,
    /// A string has no NUL terminator inside the string table.
    UnterminatedString,
    /// The entry is larger than [`MAX_ENTRY_SIZE`].
    TooLarge,
    /// The entry could not be read.
    Unreadable,
}

// ---------------------------------------------------------------------------
// Little-endian fields
// ---------------------------------------------------------------------------

/// The unsigned little-endian 16-bit value of two bytes.
pub open spec fn le_u16(lo: u8, hi: u8) -> int {
    lo + 256 * hi
}

/// The signed (two's complement) little-endian 16-bit value of two bytes.
pub open spec fn le_i16(lo: u8, hi: u8) -> int {
    if hi < 128 {
        lo + 256 * hi
    } else {
        lo + 256 * hi - 65536
    }
}

/// Reads an unsigned little-endian 16-bit value at `start`.
pub fn read_u16(data: &[u8], start: usize) -> (r: Option<u16>)
    requires
        start <= usize::MAX - 2,
    ensures
        start + 2 <= data@.len() ==> r == Some(le_u16(data@[start as int], data@[start + 1]) as u16),
        start + 2 > data@.len() ==> r is None,
{
    if start + 2 <= data.len() {
        let lo = data[start];
        let hi = data[start + 1];
        Some(lo as u16 + (hi as u16) * 256)
    } else {
        None
    }
}

/// Reads a signed little-endian 16-bit value at `start`.
pub fn read_i16(data: &[u8], start: usize) -> (r: Option<i16>)
    requires
        start <= usize::MAX - 2,
    ensures
        start + 2 <= data@.len() ==> r == Some(le_i16(data@[start as int], data@[start + 1]) as i16),
        start + 2 > data@.len() ==> r is None,
{
    if start + 2 <= data.len() {
        let lo = data[start] as i32;
        let hi = data[start + 1] as i32;
        if hi < 128 {
            Some((lo + hi * 256) as i16)
        } else {
            Some((lo + hi * 256 - 65536) as i16)
        }
    } else {
        None
    }
}

/// Adds two sizes, failing with [`Error::Truncated`] on overflow.
pub fn checked_add(left: usize, right: usize) -> (r: Result<usize, Error>)
    ensures
        left + right <= usize::MAX ==> r == Ok::<usize, Error>((left + right) as usize),
        left + right > usize::MAX ==> r == Err::<usize, Error>(Error::Truncated),
{
    match left.checked_add(right) {
        Some(sum) => Ok(sum),
        None => Err(Error::Truncated),
    }
}

/// The smallest even number that is not less than `value`.
pub open spec fn round_up_even(value: int) -> int {
    if value % 2 == 0 {
        value
    } else {
        value + 1
    }
}

/// Rounds a section offset up to the next even byte.
pub fn padded_even(value: usize) -> (r: Result<usize, Error>)
    ensures
        round_up_even(value as int) <= usize::MAX ==> r == Ok::<usize, Error>(round_up_even(value as int) as usize),
        round_up_even(value as int) > usize::MAX ==> r == Err::<usize, Error>(Error::Truncated),
{
    if value % 2 == 0 {
        Ok(value)
    } else {
        checked_add(value, 1)
    }
}

// ---------------------------------------------------------------------------
// Byte search
// ---------------------------------------------------------------------------

/// The position of the first `b` in `s` at or after `from`.
pub open spec fn find_from(s: Seq<u8>, b: u8, from: int) -> Option<int>
    decreases s.len() - from,
{
    if from < 0 || from >= s.len() {
        None
    } else if s[from] == b {
        Some(from)
    } else {
        find_from(s, b, from + 1)
    }
}

/// What the first `b` at or after `from` is: where `find_from` points holds
/// `b`, and nothing between `from` and it does.
pub proof fn lemma_find_from(s: Seq<u8>, b: u8, from: int)
    requires
        0 <= from,
    ensures
        find_from(s, b, from) matches Some(p) ==> {
            &&& from <= p < s.len()
            &&& s[p] == b
            &&& forall|j: int| from <= j < p ==> s[j] != b
        },
        find_from(s, b, from) is None ==> forall|j: int| from <= j < s.len() ==> s[j] != b,
    decreases s.len() - from,
{
    if from < s.len() && s[from] != b {
        lemma_find_from(s, b, from + 1);
    }
}

/// Finds the first `b` in `s` at or after `from`.
pub fn find_byte(s: &[u8], b: u8, from: usize) -> (r: Option<usize>)
    ensures
        match r {
            Some(i) => find_from(s@, b, from as int) == Some(i as int),
            None => find_from(s@, b, from as int) is None,
        },
{
    let mut i = from;
    while i < s.len()
        invariant
            from <= i,
            find_from(s@, b, from as int) == find_from(s@, b, i as int),
        decreases s.len() - i,
    {
        if s[i] == b {
            return Some(i);
        }
        i = i + 1;
    }
    None
}

// ---------------------------------------------------------------------------
// Entry layout
// ---------------------------------------------------------------------------

/// Where the string sections of a compiled entry lie.
#[derive(Clone, Copy, Debug, PartialEq, Eq, Structural)]
pub struct EntryLayout {
    /// Start of the string offset table.
    pub string_offsets_start: usize,
    /// Start of the string table.
    pub string_table_start: usize,
    /// End of the string table.
    pub string_table_end: usize,
    /// Number of string capabilities.
    pub string_count: usize,
}

/// The `i`-th unsigned 16-bit field of the header.
pub open spec fn header_field(data: Seq<u8>, i: int) -> int {
    le_u16(data[2 * i], data[2 * i + 1])
}

/// The layout that a compiled entry declares, or why it is refused.
///
/// The header holds six 16-bit fields: the magic number and the sizes of the
/// names, booleans, numbers, string offsets and string table. The numbers
/// section starts on an even byte; extended entries hold 4-byte numbers.
pub open spec fn spec_layout(data: Seq<u8>) -> Result<EntryLayout, Error> {
    if data.len() < 12 {
        Err(Error::TooSmall)
    } else {
        let magic = header_field(data, 0);
        if magic != MAGIC_STANDARD && magic != MAGIC_EXTENDED {
            Err(Error::BadMagic)
        } else {
            let number_width = if magic == MAGIC_EXTENDED { 4int } else { 2int };
            let after_booleans = round_up_even(12 + header_field(data, 1) + header_field(data, 2));
            let offsets_start = after_booleans + header_field(data, 3) * number_width;
            let table_start = offsets_start + header_field(data, 4) * 2;
            let table_end = table_start + header_field(data, 5);
            if table_end > data.len() {
                Err(Error::Truncated)
            } else {
                Ok(
                    EntryLayout {
                        string_offsets_start: offsets_start as usize,
                        string_table_start: table_start as usize,
                        string_table_end: table_end as usize,
                        string_count: header_field(data, 4) as usize,
                    },
                )
            }
        }
    }
}

/// Where an accepted entry's sections lie, read straight from its header: the
/// twelve header bytes, the names, the booleans, one pad byte when that much
/// is odd (so the numbers start on an even byte), the numbers (two bytes
/// each, four in an extended entry), then the string offsets (two bytes
/// each) and the string table.
pub proof fn lemma_layout_follows_header(data: Seq<u8>)
    ensures
        spec_layout(data) matches Ok(l) ==> {
            let magic = data[0] + 256 * data[1];
            let names = data[2] + 256 * data[3];
            let booleans = data[4] + 256 * data[5];
            let numbers = data[6] + 256 * data[7];
            let strings = data[8] + 256 * data[9];
            let table = data[10] + 256 * data[11];
            let unpadded = 12 + names + booleans;
            let numbers_start = if unpadded % 2 == 1 { unpadded + 1 } else { unpadded };
            let numbers_size = if magic == 0o1036 { 4 * numbers } else { 2 * numbers };
            &&& magic == 0o432 || magic == 0o1036
            &&& numbers_start % 2 == 0
            &&& l.string_offsets_start == numbers_start + numbers_size
            &&& l.string_offsets_start % 2 == 0
            &&& l.string_count == strings
            &&& l.string_table_start == l.string_offsets_start + 2 * strings
            &&& l.string_table_end == l.string_table_start + table
            &&& l.string_table_end <= data.len()
        },
{
}

/// A layout whose sections lie, in order, inside `len` bytes.
pub open spec fn layout_fits(layout: EntryLayout, len: int) -> bool {
    &&& layout.string_offsets_start + layout.string_count * 2 == layout.string_table_start
    &&& layout.string_table_start <= layout.string_table_end
    &&& layout.string_table_end <= len
}

/// A parsed compiled terminfo entry.
#[derive(Debug)]
pub struct Entry<'data> {
    data: &'data [u8],
    string_offsets_start: usize,
    string_table_start: usize,
    string_table_end: usize,
    string_count: usize,
}

impl<'data> Entry<'data> {
    /// The bytes of the entry.
    pub closed spec fn bytes(&self) -> Seq<u8> {
        self.data@
    }

    /// Where the string sections of the entry lie.
    pub closed spec fn layout(&self) -> EntryLayout {
        EntryLayout {
            string_offsets_start: self.string_offsets_start,
            string_table_start: self.string_table_start,
            string_table_end: self.string_table_end,
            string_count: self.string_count,
        }
    }

    #[verifier::type_invariant]
    closed spec fn sections_fit(&self) -> bool {
        layout_fits(self.layout(), self.data@.len() as int)
    }

    /// Parses the header of a compiled entry.
    pub fn parse(data: &'data [u8]) -> (r: Result<Self, Error>)
        ensures
            spec_layout(data@) is Ok <==> r is Ok,
            r matches Ok(entry) ==> entry.bytes() == data@ && entry.layout() == spec_layout(data@)->Ok_0,
            r matches Ok(entry) ==> layout_fits(entry.layout(), data@.len() as int),
            r matches Err(e) ==> spec_layout(data@) == Err::<EntryLayout, Error>(e),
    {
        if data.len() < 12 {
            return Err(Error::TooSmall);
        }
        let magic = match read_u16(data, 0) {
            Some(v) => v,
            None => return Err(Error::TooSmall),
        };
        if magic != MAGIC_STANDARD && magic != MAGIC_EXTENDED {
            return Err(Error::BadMagic);
        }
        let name_size = match read_u16(data, 2) {
            Some(v) => v as usize,
            None => return Err(Error::TooSmall),
        };
        let boolean_count = match read_u16(data, 4) {
            Some(v) => v as usize,
            None => return Err(Error::TooSmall),
        };
        let number_count = match read_u16(data, 6) {
            Some(v) => v as usize,
            None => return Err(Error::TooSmall),
        };
        let string_count = match read_u16(data, 8) {
            Some(v) => v as usize,
            None => return Err(Error::TooSmall),
        };
        let string_table_size = match read_u16(data, 10) {
            Some(v) => v as usize,
            None => return Err(Error::TooSmall),
        };
        let number_width: usize = if magic == MAGIC_EXTENDED { 4 } else { 2 };

        let after_names = checked_add(12, name_size)?;
        let after_booleans = padded_even(checked_add(after_names, boolean_count)?)?;
        let string_offsets_start = checked_add(after_booleans, number_count * number_width)?;
        let string_table_start = checked_add(string_offsets_start, string_count * 2)?;
        let string_table_end = checked_add(string_table_start, string_table_size)?;

        if string_table_start > data.len() || string_table_end > data.len() {
            return Err(Error::Truncated);
        }

        Ok(Entry { data, string_offsets_start, string_table_start, string_table_end, string_count })
    }

    /// Reads the raw bytes of the string capability `index`.
    pub fn string_raw(&self, index: usize) -> (r: Result<Option<&'data [u8]>, Error>)
        ensures
            match (r, spec_string_raw(self.bytes(), self.layout(), index as int)) {
                (Ok(Some(got)), Ok(Some(want))) => got@ == want,
                (Ok(None), Ok(None)) => true,
                (Err(e), Err(f)) => e == f,
                _ => false,
            },
    {
        proof { use_type_invariant(self); }
        if index >= self.string_count {
            return Ok(None);
        }
        let offset_start = self.string_offsets_start + index * 2;
        let offset = match read_i16(self.data, offset_start) {
            Some(v) => v,
            None => return Err(Error::Truncated),
        };
        if offset < 0 {
            return Ok(None);
        }
        let relative = offset as usize;
        let table_length = self.string_table_end - self.string_table_start;
        if relative >= table_length {
            return Err(Error::BadStringOffset);
        }
        let start = self.string_table_start + relative;
        let rest = &self.data[start..self.string_table_end];
        let found = find_byte(rest, 0, 0);
        proof { lemma_find_from(rest@, 0, 0); }
        match found {
            Some(end) => Ok(Some(&rest[0..end])),
            None => Err(Error::UnterminatedString),
        }
    }

    /// Reads string capability `index` with its padding markers removed.
    pub fn string(&self, index: usize) -> (r: Result<Option<Cow<'data, [u8]>>, Error>)
        ensures
            match (r, spec_string(self.bytes(), self.layout(), index as int)) {
                (Ok(Some(got)), Ok(Some(want))) => got@ == want,
                (Ok(None), Ok(None)) => true,
                (Err(e), Err(f)) => e == f,
                _ => false,
            },
    {
        match self.string_raw(index) {
            Ok(Some(raw)) => Ok(Some(strip_padding(raw))),
            Ok(None) => Ok(None),
            Err(e) => Err(e),
        }
    }
}

/// A capability string read from an entry whose sections fit lies inside the
/// string table and holds no NUL byte.
pub proof fn lemma_string_raw_in_table(data: Seq<u8>, layout: EntryLayout, index: int)
    requires
        layout_fits(layout, data.len() as int),
        0 <= index,
    ensures
        spec_string_raw(data, layout, index) matches Ok(Some(s)) ==> {
            &&& s.len() < layout.string_table_end - layout.string_table_start
            &&& forall|i: int| 0 <= i < s.len() ==> s[i] != 0
        },
        spec_string_raw(data, layout, index) matches Ok(Some(s)) ==> {
            let at = layout.string_offsets_start + 2 * index;
            let start = layout.string_table_start + data[at] + 256 * data[at + 1];
            &&& index < layout.string_count
            &&& data[at + 1] < 128
            &&& start + s.len() < layout.string_table_end
            &&& s == data.subrange(start, start + s.len())
            &&& data[start + s.len()] == 0
        },
        index < layout.string_count && data[layout.string_offsets_start + 2 * index + 1] >= 128 ==> spec_string_raw(
            data,
            layout,
            index,
        ) == Ok::<Option<Seq<u8>>, Error>(None),
        index >= layout.string_count ==> spec_string_raw(data, layout, index) == Ok::<Option<Seq<u8>>, Error>(None),
{
    if index < layout.string_count {
        let at = layout.string_offsets_start + index * 2;
        let offset = le_i16(data[at], data[at + 1]);
        if 0 <= offset < layout.string_table_end - layout.string_table_start {
            let rest = data.subrange(layout.string_table_start + offset, layout.string_table_end as int);
            lemma_find_from(rest, 0, 0);
            if let Some(end) = find_from(rest, 0, 0) {
                assert(rest.take(end) =~= data.subrange(
                    layout.string_table_start + offset,
                    layout.string_table_start + offset + end,
                ));
                assert(rest[end] == data[layout.string_table_start + offset + end]);
            }
        }
    }
}

/// String capability `index` with its padding markers removed.
pub open spec fn spec_string(data: Seq<u8>, layout: EntryLayout, index: int) -> Result<Option<Seq<u8>>, Error> {
    match spec_string_raw(data, layout, index) {
        Ok(Some(raw)) => Ok(Some(strip_from(raw, 0))),
        Ok(None) => Ok(None),
        Err(e) => Err(e),
    }
}

/// The raw bytes of string capability `index` in an entry with `layout`.
///
/// An index past the declared strings, or a negative offset, names an absent
/// capability. A present one starts at its offset in the string table and
/// ends before the first NUL byte of the table.
pub open spec fn spec_string_raw(data: Seq<u8>, layout: EntryLayout, index: int) -> Result<Option<Seq<u8>>, Error> {
    if index >= layout.string_count {
        Ok(None)
    } else {
        let at = layout.string_offsets_start + index * 2;
        let offset = le_i16(data[at], data[at + 1]);
        if offset < 0 {
            Ok(None)
        } else if offset >= layout.string_table_end - layout.string_table_start {
            Err(Error::BadStringOffset)
        } else {
            let rest = data.subrange(layout.string_table_start + offset, layout.string_table_end as int);
            match find_from(rest, 0, 0) {
                Some(end) => Ok(Some(rest.take(end))),
                None => Err(Error::UnterminatedString),
            }
        }
    }
}

// ---------------------------------------------------------------------------
// Reset capabilities
// ---------------------------------------------------------------------------

/// The reset and initialization strings of an entry, padding removed.
#[derive(Debug)]
pub struct ResetStrings<'data> {
    /// `rs1`
    pub rs1: Option<Cow<'data, [u8]>>,
    /// `rs2`
    pub rs2: Option<Cow<'data, [u8]>>,
    /// `rs3`
    pub rs3: Option<Cow<'data, [u8]>>,
    /// `is1`
    pub is1: Option<Cow<'data, [u8]>>,
    /// `is2`
    pub is2: Option<Cow<'data, [u8]>>,
    /// `is3`
    pub is3: Option<Cow<'data, [u8]>>,
    /// `clear_margins`
    pub clear_margins: Option<Cow<'data, [u8]>>,
}

/// The contents of [`ResetStrings`].
pub struct ResetStringsView {
    pub rs1: Option<Seq<u8>>,
    pub rs2: Option<Seq<u8>>,
    pub rs3: Option<Seq<u8>>,
    pub is1: Option<Seq<u8>>,
    pub is2: Option<Seq<u8>>,
    pub is3: Option<Seq<u8>>,
    pub clear_margins: Option<Seq<u8>>,
}

/// The bytes of an optional capability.
pub open spec fn capability_view(c: Option<Cow<'_, [u8]>>) -> Option<Seq<u8>> {
    match c {
        Some(bytes) => Some(bytes@),
        None => None,
    }
}

impl<'data> View for ResetStrings<'data> {
    type V = ResetStringsView;

    open spec fn view(&self) -> ResetStringsView {
        ResetStringsView {
            rs1: capability_view(self.rs1),
            rs2: capability_view(self.rs2),
            rs3: capability_view(self.rs3),
            is1: capability_view(self.is1),
            is2: capability_view(self.is2),
            is3: capability_view(self.is3),
            clear_margins: capability_view(self.clear_margins),
        }
    }
}

/// The reset strings of a compiled entry, or the first error met when the
/// header is parsed and then `rs1`, `rs2`, `rs3`, `is1`, `is2`, `is3` and
/// `clear_margins` are read, in that order.
pub open spec fn spec_reset_strings(data: Seq<u8>) -> Result<ResetStringsView, Error> {
    match spec_layout(data) {
        Err(e) => Err(e),
        Ok(l) => match spec_string(data, l, STRING_RS1 as int) {
            Err(e) => Err(e),
            Ok(rs1) => match spec_string(data, l, STRING_RS2 as int) {
                Err(e) => Err(e),
                Ok(rs2) => match spec_string(data, l, STRING_RS3 as int) {
                    Err(e) => Err(e),
                    Ok(rs3) => match spec_string(data, l, STRING_IS1 as int) {
                        Err(e) => Err(e),
                        Ok(is1) => match spec_string(data, l, STRING_IS2 as int) {
                            Err(e) => Err(e),
                            Ok(is2) => match spec_string(data, l, STRING_IS3 as int) {
                                Err(e) => Err(e),
                                Ok(is3) => match spec_string(data, l, STRING_CLEAR_MARGINS as int) {
                                    Err(e) => Err(e),
                                    Ok(clear_margins) => Ok(
                                        ResetStringsView { rs1, rs2, rs3, is1, is2, is3, clear_margins },
                                    ),
                                },
                            },
                        },
                    },
                },
            },
        },
    }
}

/// Reads the reset strings of a compiled entry.
pub fn reset_strings(data: &[u8]) -> (r: Result<ResetStrings<'_>, Error>)
    ensures
        match (r, spec_reset_strings(data@)) {
            (Ok(got), Ok(want)) => got@ == want,
            (Err(e), Err(f)) => e == f,
            _ => false,
        },
{
    let entry = Entry::parse(data)?;
    let rs1 = entry.string(STRING_RS1)?;
    let rs2 = entry.string(STRING_RS2)?;
    let rs3 = entry.string(STRING_RS3)?;
    let is1 = entry.string(STRING_IS1)?;
    let is2 = entry.string(STRING_IS2)?;
    let is3 = entry.string(STRING_IS3)?;
    let clear_margins = entry.string(STRING_CLEAR_MARGINS)?;
    Ok(ResetStrings { rs1, rs2, rs3, is1, is2, is3, clear_margins })
}

/// Checks that the header of a compiled entry is valid.
pub fn validate(data: &[u8]) -> (r: Result<(), Error>)
    ensures
        match spec_layout(data@) {
            Ok(_) => r is Ok,
            Err(e) => r == Err::<(), Error>(e),
        },
{
    match Entry::parse(data) {
        Ok(_) => Ok(()),
        Err(e) => Err(e),
    }
}

// ---------------------------------------------------------------------------
// Terminal names
// ---------------------------------------------------------------------------

/// A byte that may stand in a terminal name: an ASCII letter or digit, `-`,
/// `_`, `.` or `+`.
pub open spec fn is_name_byte(b: u8) -> bool {
    ||| 48 <= b <= 57
    ||| 65 <= b <= 90
    ||| 97 <= b <= 122
    ||| b == 45 || b == 95 || b == 46 || b == 43
}

/// A terminal name that can name a terminfo entry safely: 1 to 255 name
/// bytes, and neither `.` nor `..`.
pub open spec fn spec_is_valid_term_name(term: Seq<u8>) -> bool {
    &&& 0 < term.len() <= 255
    &&& term != seq![46u8]
    &&& term != seq![46u8, 46u8]
    &&& forall|i: int| 0 <= i < term.len() ==> is_name_byte(term[i])
}

/// Checks whether `term` can name a terminfo entry safely.
pub fn is_valid_term_name(term: &[u8]) -> (r: bool)
    ensures
        r == spec_is_valid_term_name(term@),
{
    if term.len() == 0 || term.len() > 255 {
        return false;
    }
    if term.len() == 1 && term[0] == 46 {
        assert(term@ =~= seq![46u8]);
        return false;
    }
    if term.len() == 2 && term[0] == 46 && term[1] == 46 {
        assert(term@ =~= seq![46u8, 46u8]);
        return false;
    }
    proof {
        if term@ == seq![46u8] {
            assert(term@[0] == 46u8);
        }
        if term@ == seq![46u8, 46u8] {
            assert(term@[0] == 46u8 && term@[1] == 46u8);
        }
    }
    let mut i: usize = 0;
    while i < term.len()
        invariant
            i <= term@.len(),
            forall|j: int| 0 <= j < i ==> is_name_byte(term@[j]),
        decreases term.len() - i,
    {
        let b = term[i];
        let ok = (48 <= b && b <= 57) || (65 <= b && b <= 90) || (97 <= b && b <= 122) || b == 45
            || b == 95 || b == 46 || b == 43;
        if !ok {
            return false;
        }
        i = i + 1;
    }
    true
}

/// A valid terminal name cannot leave the directory it is looked up in: it
/// holds no `/` and no NUL, and it is neither `.` nor `..`.
pub proof fn lemma_valid_name_stays_in_directory(term: Seq<u8>)
    requires
        spec_is_valid_term_name(term),
    ensures
        forall|i: int| 0 <= i < term.len() ==> term[i] != 47 && term[i] != 0,
        term != seq![46u8],
        term != seq![46u8, 46u8],
{
    assert forall|i: int| 0 <= i < term.len() implies term[i] != 47 && term[i] != 0 by {
        assert(is_name_byte(term[i]));
    }
}

/// Exactly the names of 1 to 255 bytes, each an ASCII letter or digit, `-`,
/// `_`, `.` or `+`, other than `.` and `..`, are valid terminal names.
pub proof fn lemma_valid_names(term: Seq<u8>)
    ensures
        spec_is_valid_term_name(term) <==> {
            &&& 1 <= term.len() <= 255
            &&& !(term.len() == 1 && term[0] == 46)
            &&& !(term.len() == 2 && term[0] == 46 && term[1] == 46)
            &&& forall|i: int| 0 <= i < term.len() ==> {
                let b = #[trigger] term[i];
                (48 <= b <= 57) || (65 <= b <= 90) || (97 <= b <= 122) || b == 45 || b == 95 || b == 46
                    || b == 43
            }
        },
{
    if term.len() == 1 && term[0] == 46 {
        assert(term =~= seq![46u8]);
    }
    if term.len() == 2 && term[0] == 46 && term[1] == 46 {
        assert(term =~= seq![46u8, 46u8]);
    }
}

/// A byte that separates a terminal family from a variant: `-`, `.` or `+`.
pub open spec fn is_family_separator(b: u8) -> bool {
    b == 45 || b == 46 || b == 43
}

/// `term` names `family` itself, or a variant of it after a separator.
pub open spec fn spec_is_terminal_family(term: Seq<u8>, family: Seq<u8>) -> bool {
    ||| term == family
    ||| term.len() > family.len() && term.take(family.len() as int) == family && is_family_separator(
        term[family.len() as int],
    )
}

/// Checks whether `term` belongs to the terminal family `family`.
pub fn is_terminal_family(term: &[u8], family: &[u8]) -> (r: bool)
    ensures
        r == spec_is_terminal_family(term@, family@),
{
    if term.len() < family.len() {
        return false;
    }
    let mut i: usize = 0;
    while i < family.len()
        invariant
            i <= family@.len() <= term@.len(),
            forall|j: int| 0 <= j < i ==> term@[j] == family@[j],
        decreases family.len() - i,
    {
        if term[i] != family[i] {
            return false;
        }
        i = i + 1;
    }
    assert(term@.take(family@.len() as int) =~= family@);
    if term.len() == family.len() {
        assert(term@ =~= family@);
        return true;
    }
    let b = term[family.len()];
    b == 45 || b == 46 || b == 43
}

/// The terminal families known to be VT-compatible.
pub open spec fn spec_is_known_family(term: Seq<u8>) -> bool {
    ||| spec_is_terminal_family(term, "xterm".spec_bytes())
    ||| spec_is_terminal_family(term, "screen".spec_bytes())
    ||| spec_is_terminal_family(term, "tmux".spec_bytes())
    ||| spec_is_terminal_family(term, "rxvt".spec_bytes())
    ||| spec_is_terminal_family(term, "ansi".spec_bytes())
    ||| spec_is_terminal_family(term, "linux".spec_bytes())
    ||| spec_is_terminal_family(term, "cygwin".spec_bytes())
    ||| spec_is_terminal_family(term, "st".spec_bytes())
    ||| spec_is_terminal_family(term, "alacritty".spec_bytes())
    ||| spec_is_terminal_family(term, "kitty".spec_bytes())
    ||| spec_is_terminal_family(term, "wezterm".spec_bytes())
    ||| spec_is_terminal_family(term, "foot".spec_bytes())
    ||| spec_is_terminal_family(term, "ghostty".spec_bytes())
}

/// A DEC VT model name: `vt` followed by a digit.
pub open spec fn is_vt_model(term: Seq<u8>) -> bool {
    term.len() >= 3 && term[0] == 118 && term[1] == 116 && is_digit(term[2])
}

/// A valid terminal name of a known VT-compatible family or a VT model.
pub open spec fn spec_is_vt_compatible(term: Seq<u8>) -> bool {
    spec_is_valid_term_name(term) && (spec_is_known_family(term) || is_vt_model(term))
}

/// Only a name that is safe to look up can be VT-compatible.
pub proof fn lemma_vt_compatible_is_valid(term: Seq<u8>)
    requires
        spec_is_vt_compatible(term),
    ensures
        spec_is_valid_term_name(term),
{
}

/// `term` is `family`, or `family` followed by `-`, `.` or `+` and more.
pub open spec fn names_family_variant(term: Seq<u8>, family: Seq<u8>) -> bool {
    ||| term == family
    ||| term.len() > family.len() && term.subrange(0, family.len() as int) == family && (term[family.len() as int]
        == 45 || term[family.len() as int] == 46 || term[family.len() as int] == 43)
}

/// Every valid name of one of the known VT-compatible families (xterm,
/// screen, tmux, rxvt, ansi, linux, cygwin, st, alacritty, kitty, wezterm,
/// foot, ghostty), the family itself or a variant after `-`, `.` or `+`, is
/// VT-compatible; so is every valid `vt` name followed by a digit.
pub proof fn lemma_known_families_are_vt_compatible(term: Seq<u8>, family: Seq<u8>)
    requires
        spec_is_valid_term_name(term),
        family == "xterm".spec_bytes() || family == "screen".spec_bytes() || family == "tmux".spec_bytes()
            || family == "rxvt".spec_bytes() || family == "ansi".spec_bytes() || family
            == "linux".spec_bytes() || family == "cygwin".spec_bytes() || family == "st".spec_bytes()
            || family == "alacritty".spec_bytes() || family == "kitty".spec_bytes() || family
            == "wezterm".spec_bytes() || family == "foot".spec_bytes() || family == "ghostty".spec_bytes(),
        names_family_variant(term, family) || (term.len() >= 3 && term[0] == 118 && term[1] == 116 && 48
            <= term[2] <= 57),
    ensures
        spec_is_vt_compatible(term),
{
    if names_family_variant(term, family) && term != family {
        assert(term.take(family.len() as int) == term.subrange(0, family.len() as int));
        assert(spec_is_terminal_family(term, family));
    }
}

/// Checks whether `term` names a VT-compatible terminal.
pub fn is_vt_compatible(term: &[u8]) -> (r: bool)
    ensures
        r == spec_is_vt_compatible(term@),
{
    if !is_valid_term_name(term) {
        return false;
    }
    let known = is_terminal_family(term, "xterm".as_bytes())
        || is_terminal_family(term, "screen".as_bytes())
        || is_terminal_family(term, "tmux".as_bytes())
        || is_terminal_family(term, "rxvt".as_bytes())
        || is_terminal_family(term, "ansi".as_bytes())
        || is_terminal_family(term, "linux".as_bytes())
        || is_terminal_family(term, "cygwin".as_bytes())
        || is_terminal_family(term, "st".as_bytes())
        || is_terminal_family(term, "alacritty".as_bytes())
        || is_terminal_family(term, "kitty".as_bytes())
        || is_terminal_family(term, "wezterm".as_bytes())
        || is_terminal_family(term, "foot".as_bytes())
        || is_terminal_family(term, "ghostty".as_bytes());
    known || (term.len() >= 3 && term[0] == 118 && term[1] == 116 && 48 <= term[2] && term[2] <= 57)
}

// ---------------------------------------------------------------------------
// Padding markers
// ---------------------------------------------------------------------------

/// An ASCII decimal digit.
pub open spec fn is_digit(b: u8) -> bool {
    48 <= b <= 57
}

/// The end of the run of digits in `s` that starts at `from`.
pub open spec fn digits_end(s: Seq<u8>, from: int) -> int
    decreases s.len() - from,
{
    if from < 0 || from >= s.len() || !is_digit(s[from]) {
        from
    } else {
        digits_end(s, from + 1)
    }
}

/// The flags that may end a delay: `*` (proportional) and `/` (mandatory),
/// each at most once and in either order.
pub open spec fn is_delay_flags(t: Seq<u8>) -> bool {
    &&& forall|i: int| 0 <= i < t.len() ==> t[i] == 42 || t[i] == 47
    &&& forall|i: int, j: int| 0 <= i < j < t.len() ==> t[i] != t[j]
}

/// The body of a terminfo padding marker `$<...>`: a delay of one or more
/// digits with at most one decimal place, then the optional delay flags.
pub open spec fn spec_is_padding_body(body: Seq<u8>) -> bool {
    let d = digits_end(body, 0);
    &&& d > 0
    &&& if d < body.len() && body[d] == 46 {
        &&& d + 1 < body.len()
        &&& is_digit(body[d + 1])
        &&& is_delay_flags(body.skip(d + 2))
    } else {
        is_delay_flags(body.skip(d))
    }
}

/// Checks whether `body[from..]` is a run of delay flags.
fn is_delay_flags_from(body: &[u8], from: usize) -> (r: bool)
    requires
        from <= body@.len(),
    ensures
        r == is_delay_flags(body@.skip(from as int)),
{
    let ghost t = body@.skip(from as int);
    let mut star = false;
    let mut slash = false;
    let mut i = from;
    while i < body.len()
        invariant
            from <= i <= body@.len(),
            t == body@.skip(from as int),
            is_delay_flags(t.take(i - from)),
            star <==> t.take(i - from).contains(42u8),
            slash <==> t.take(i - from).contains(47u8),
        decreases body.len() - i,
    {
        let byte = body[i];
        let ghost seen = t.take(i - from);
        assert(t[i - from] == byte);
        if byte == 42 && !star {
            star = true;
        } else if byte == 47 && !slash {
            slash = true;
        } else {
            proof {
                if byte == 42 || byte == 47 {
                    let j = choose|j: int| 0 <= j < seen.len() && seen[j] == byte;
                    assert(t[j] == t[i - from]);
                }
                assert(!is_delay_flags(t));
            }
            return false;
        }
        proof {
            let next = t.take(i + 1 - from);
            assert(next =~= seen.push(byte));
            assert forall|a: int, b: int| 0 <= a < b < next.len() implies next[a] != next[b] by {
                if b == next.len() - 1 && a < seen.len() {
                    assert(seen[a] == next[a]);
                    assert(seen.contains(next[a]));
                }
            }
            assert(next.contains(byte)) by {
                assert(next[next.len() - 1] == byte);
            }
            if seen.contains(42u8) {
                let j = choose|j: int| 0 <= j < seen.len() && seen[j] == 42u8;
                assert(next[j] == 42u8);
            }
            if seen.contains(47u8) {
                let j = choose|j: int| 0 <= j < seen.len() && seen[j] == 47u8;
                assert(next[j] == 47u8);
            }
        }
        i = i + 1;
    }
    assert(t.take(i - from) =~= t);
    true
}

/// Checks whether `body` is the body of a padding marker.
pub fn is_padding_body(body: &[u8]) -> (r: bool)
    ensures
        r == spec_is_padding_body(body@),
{
    let mut digits: usize = 0;
    while digits < body.len() && 48 <= body[digits] && body[digits] <= 57
        invariant
            digits <= body@.len(),
            digits_end(body@, 0) == digits_end(body@, digits as int),
        decreases body.len() - digits,
    {
        digits = digits + 1;
    }
    if digits == 0 {
        return false;
    }
    let mut index = digits;
    if index < body.len() && body[index] == 46 {
        index = index + 1;
        if !(index < body.len() && 48 <= body[index] && body[index] <= 57) {
            return false;
        }
        index = index + 1;
        if index < body.len() && 48 <= body[index] && body[index] <= 57 {
            proof {
                let t = body@.skip(index as int);
                assert(t[0] == body@[index as int]);
            }
            return false;
        }
    }
    is_delay_flags_from(body, index)
}

/// The bytes of `raw` from `index` on, with every padding marker removed.
///
/// A marker is `$<`, a body, and the first `>` after it. A marker whose body
/// is not a delay stays in place whole; a `$<` without a closing `>` is
/// ordinary text.
pub open spec fn strip_from(raw: Seq<u8>, index: int) -> Seq<u8>
    decreases raw.len() - index,
{
    if index < 0 || index >= raw.len() {
        Seq::empty()
    } else if index + 2 <= raw.len() && raw[index] == 36 && raw[index + 1] == 60 && find_from(
        raw,
        62,
        index + 2,
    ) is Some {
        let end = find_from(raw, 62, index + 2)->Some_0;
        proof {
            lemma_find_from(raw, 62, index + 2);
        }
        if spec_is_padding_body(raw.subrange(index + 2, end)) {
            strip_from(raw, end + 1)
        } else {
            raw.subrange(index, end + 1) + strip_from(raw, end + 1)
        }
    } else {
        seq![raw[index]] + strip_from(raw, index + 1)
    }
}

/// Text without a `$` holds no padding marker: stripping keeps it whole.
pub proof fn lemma_strip_without_dollar(raw: Seq<u8>, index: int)
    requires
        0 <= index <= raw.len(),
        forall|j: int| index <= j < raw.len() ==> raw[j] != 36,
    ensures
        strip_from(raw, index) == raw.subrange(index, raw.len() as int),
    decreases raw.len() - index,
{
    if index < raw.len() {
        lemma_strip_without_dollar(raw, index + 1);
        assert(seq![raw[index]] + raw.subrange(index + 1, raw.len() as int) =~= raw.subrange(
            index,
            raw.len() as int,
        ));
    } else {
        assert(raw.subrange(index, raw.len() as int) =~= Seq::<u8>::empty());
    }
}

/// Stripping never makes text longer.
pub proof fn lemma_strip_shortens(raw: Seq<u8>, index: int)
    requires
        0 <= index <= raw.len(),
    ensures
        strip_from(raw, index).len() <= raw.len() - index,
    decreases raw.len() - index,
{
    if index < raw.len() {
        if index + 2 <= raw.len() && raw[index] == 36 && raw[index + 1] == 60 && find_from(
            raw,
            62,
            index + 2,
        ) is Some {
            lemma_find_from(raw, 62, index + 2);
            let end = find_from(raw, 62, index + 2)->Some_0;
            lemma_strip_shortens(raw, end + 1);
        } else {
            lemma_strip_shortens(raw, index + 1);
        }
    }
}

/// A body of one or more digits is a delay, with or without one decimal
/// place and the flags `*` and `/`; a body that holds any byte other than a
/// digit, `.`, `*` or `/`, or that does not start with a digit, is not.
pub proof fn lemma_padding_bodies(body: Seq<u8>)
    ensures
        body.len() > 0 && (forall|i: int| 0 <= i < body.len() ==> 48 <= #[trigger] body[i] <= 57)
            ==> spec_is_padding_body(body),
        (exists|i: int| 0 <= i < body.len() && !(48 <= #[trigger] body[i] <= 57 || body[i] == 46 || body[i] == 42
            || body[i] == 47)) ==> !spec_is_padding_body(body),
        body.len() == 0 || !(48 <= body[0] <= 57) ==> !spec_is_padding_body(body),
{
    lemma_digits_end(body, 0);
    let d = digits_end(body, 0);
    if body.len() > 0 && (forall|i: int| 0 <= i < body.len() ==> 48 <= #[trigger] body[i] <= 57) {
        if d < body.len() {
            assert(48 <= body[d] <= 57);
        }
        assert(body.skip(d) =~= Seq::<u8>::empty());
    }
    if exists|i: int| 0 <= i < body.len() && !(48 <= #[trigger] body[i] <= 57 || body[i] == 46 || body[i] == 42
        || body[i] == 47) {
        let i = choose|i: int| 0 <= i < body.len() && !(48 <= #[trigger] body[i] <= 57 || body[i] == 46
            || body[i] == 42 || body[i] == 47);
        if spec_is_padding_body(body) {
            assert(i >= d);
            if d < body.len() && body[d] == 46 {
                assert(i >= d + 2);
                assert(body.skip(d + 2)[i - d - 2] == body[i]);
            } else {
                assert(body.skip(d)[i - d] == body[i]);
            }
        }
    }
}

proof fn lemma_digits_end(s: Seq<u8>, from: int)
    requires
        0 <= from <= s.len(),
    ensures
        from <= digits_end(s, from) <= s.len(),
        forall|j: int| from <= j < digits_end(s, from) ==> is_digit(s[j]),
        digits_end(s, from) < s.len() ==> !is_digit(s[digits_end(s, from)]),
    decreases s.len() - from,
{
    if from < s.len() && is_digit(s[from]) {
        lemma_digits_end(s, from + 1);
    }
}

proof fn lemma_strip_plain_run(raw: Seq<u8>, i: int, p: int)
    requires
        0 <= i <= p <= raw.len(),
        forall|j: int| i <= j < p ==> raw[j] != 36,
    ensures
        strip_from(raw, i) == raw.subrange(i, p) + strip_from(raw, p),
    decreases p - i,
{
    if i < p {
        lemma_strip_plain_run(raw, i + 1, p);
        assert(seq![raw[i]] + (raw.subrange(i + 1, p) + strip_from(raw, p)) =~= raw.subrange(i, p)
            + strip_from(raw, p));
    } else {
        assert(raw.subrange(i, p) =~= Seq::<u8>::empty());
        assert(Seq::<u8>::empty() + strip_from(raw, p) =~= strip_from(raw, p));
    }
}

proof fn lemma_find_past_digits(raw: Seq<u8>, from: int, to: int)
    requires
        0 <= from <= to < raw.len(),
        forall|j: int| from <= j < to ==> 48 <= #[trigger] raw[j] <= 57,
        raw[to] == 62,
    ensures
        find_from(raw, 62, from) == Some(to),
    decreases to - from,
{
    if from < to {
        lemma_find_past_digits(raw, from + 1, to);
    }
}

/// A delay marker `$<digits>` between two runs of text without `$` is
/// removed, and the text around it kept as it is.
pub proof fn lemma_strip_removes_delay(before: Seq<u8>, delay: Seq<u8>, after: Seq<u8>)
    requires
        forall|i: int| 0 <= i < before.len() ==> before[i] != 36,
        delay.len() > 0,
        forall|i: int| 0 <= i < delay.len() ==> 48 <= #[trigger] delay[i] <= 57,
        forall|i: int| 0 <= i < after.len() ==> after[i] != 36,
    ensures
        strip_from(before + seq![36u8, 60u8] + delay + seq![62u8] + after, 0) == before + after,
{
    let raw = before + seq![36u8, 60u8] + delay + seq![62u8] + after;
    let p = before.len() as int;
    let end = p + 2 + delay.len();
    assert forall|j: int| 0 <= j < p implies raw[j] != 36 by {
        assert(raw[j] == before[j]);
    }
    lemma_strip_plain_run(raw, 0, p);
    assert forall|j: int| p + 2 <= j < end implies 48 <= #[trigger] raw[j] <= 57 by {
        assert(raw[j] == delay[j - p - 2]);
    }
    assert(raw[end] == 62);
    lemma_find_past_digits(raw, p + 2, end);
    assert(raw.subrange(p + 2, end) =~= delay);
    lemma_padding_bodies(delay);
    assert forall|j: int| end + 1 <= j < raw.len() implies raw[j] != 36 by {
        assert(raw[j] == after[j - end - 1]);
    }
    lemma_strip_without_dollar(raw, end + 1);
    assert(raw.subrange(0, p) =~= before);
    assert(raw.subrange(end + 1, raw.len() as int) =~= after);
}

/// Removes the terminfo padding markers from a capability string.
///
/// Text without a `$` is handed back borrowed, unchanged.
pub fn strip_padding(raw: &[u8]) -> (r: Cow<'_, [u8]>)
    ensures
        r@ == strip_from(raw@, 0),
        r@.len() <= raw@.len(),
        (r matches Cow::Borrowed(_)) <==> !raw@.contains(36u8),
{
    proof {
        lemma_strip_shortens(raw@, 0);
    }
    let dollar = find_byte(raw, 36, 0);
    proof {
        lemma_find_from(raw@, 36, 0);
    }
    if dollar.is_none() {
        proof {
            lemma_strip_without_dollar(raw@, 0);
            assert(raw@.subrange(0, raw@.len() as int) =~= raw@);
        }
        return Cow::Borrowed(raw);
    }
    proof {
        let p = find_from(raw@, 36, 0)->Some_0;
        assert(raw@[p] == 36u8);
    }
    let mut output: Vec<u8> = Vec::with_capacity(raw.len());
    let mut index: usize = 0;
    while index < raw.len()
        invariant
            index <= raw@.len(),
            output@ + strip_from(raw@, index as int) == strip_from(raw@, 0),
        decreases raw.len() - index,
    {
        let ghost before = output@;
        if raw.len() - index >= 2 && raw[index] == 36 && raw[index + 1] == 60 {
            let body_start = index + 2;
            let close = find_byte(raw, 62, body_start);
            proof {
                lemma_find_from(raw@, 62, body_start as int);
            }
            match close {
                Some(end) => {
                    if is_padding_body(&raw[body_start..end]) {
                        index = end + 1;
                        continue;
                    }
                    output.extend_from_slice(&raw[index..end + 1]);
                    proof {
                        assert(output@ =~= before + raw@.subrange(index as int, end + 1));
                        assert(output@ + strip_from(raw@, end + 1) =~= before + (raw@.subrange(
                            index as int,
                            end + 1,
                        ) + strip_from(raw@, end + 1)));
                    }
                    index = end + 1;
                    continue;
                },
                None => {},
            }
        }
        output.push(raw[index]);
        proof {
            assert(output@ + strip_from(raw@, index + 1) =~= before + (seq![raw@[index as int]]
                + strip_from(raw@, index + 1)));
        }
        index = index + 1;
    }
    proof {
        assert(output@ + strip_from(raw@, index as int) =~= output@);
    }
    Cow::Owned(output)
}

} // verus!
