//! The workbook: the directory of its sheets, the active sheet, and the
//! values each operation hands to the engine or takes back from it.
use vstd::prelude::*;

use crate::codec::{decode, decodes, encode, encodes, no_interior_nul, CodecError};

verus! {

/// The largest number of sheets the engine can report.
pub const MAX_SHEETS: i32 = 0x7fff_ffff;

/// The state of one workbook: its format, the names of its sheets in order,
/// and the ordinal of the active sheet, if any.
pub struct ExcelBook {
    is_xlsx: bool,
    sheet_names: Vec<String>,
    active_sheet: Option<usize>,
}

/// Sheet names as character sequences.
pub open spec fn name_views(v: Seq<String>) -> Seq<Seq<char>> {
    v.map_values(|s: String| s@)
}

/// The smallest ordinal whose sheet is named `name`, or 0 when none is.
pub open spec fn first_named(names: Seq<Seq<char>>, name: Seq<char>) -> int {
    if exists|i: int| 0 <= i < names.len() && names[i] == name {
        choose|i: int|
            0 <= i < names.len() && names[i] == name && forall|j: int|
                0 <= j < i ==> names[j] != name
    } else {
        0
    }
}

/// The ordinal an ordinal address resolves to: itself from 0 up to the sheet
/// count inclusive, and 0 otherwise.
pub open spec fn ordinal_resolved(i: int, count: int) -> int {
    if 0 <= i <= count {
        i
    } else {
        0
    }
}

/// The engine's integer for a boolean cell value.
pub open spec fn bool_code(b: bool) -> i32 {
    if b {
        1
    } else {
        0
    }
}

/// The boolean an engine integer stands for.
pub open spec fn code_bool(c: i32) -> bool {
    c != 0
}

/// The last `width` lowercase hexadecimal digits of `v`, most significant
/// first.
pub open spec fn hex_of(v: nat, width: nat) -> Seq<char>
    decreases width,
{
    if width == 0 {
        Seq::empty()
    } else {
        hex_of(v / 16, (width - 1) as nat).push(hex_digit(v % 16))
    }
}

/// The lowercase hexadecimal digit for `d`, below 16.
pub open spec fn hex_digit(d: nat) -> char {
    seq!['0', '1', '2', '3', '4', '5', '6', '7', '8', '9', 'a', 'b', 'c', 'd', 'e', 'f'][d as int]
}

/// A way to name a sheet of a workbook, resolved to an ordinal.
pub trait SheetIndex {
    /// The ordinal this address resolves to among sheets with these names.
    spec fn resolves_to(&self, names: Seq<Seq<char>>) -> int;

    /// Resolves this address against the sheets of `book`; an address that
    /// names no sheet resolves to 0.
    fn sheet_index(&self, book: &ExcelBook) -> (r: i32)
        requires
            book.wf(),
        ensures
            r as int == self.resolves_to(book.names()),
    ;
}

impl SheetIndex for i32 {
    open spec fn resolves_to(&self, names: Seq<Seq<char>>) -> int {
        ordinal_resolved(*self as int, names.len() as int)
    }

    fn sheet_index(&self, book: &ExcelBook) -> (r: i32) {
        if *self <= book.sheet_count() && *self >= 0 {
            return *self;
        }
        0
    }
}

impl<'a> SheetIndex for &'a str {
    open spec fn resolves_to(&self, names: Seq<Seq<char>>) -> int {
        first_named(names, self@)
    }

    fn sheet_index(&self, book: &ExcelBook) -> (r: i32) {
        let count = book.sheet_count();
        let target = (*self).to_owned();
        let mut i: i32 = 0;
        while i < count
            invariant
                book.wf(),
                count as int == book.names().len(),
                target@ == self@,
                0 <= i <= count,
                forall|j: int| 0 <= j < i ==> book.names()[j] != self@,
            decreases count - i,
        {
            if book.sheet_name(i) == target {
                proof {
                    lemma_first_named_at(book.names(), self@, i as int);
                }
                return i;
            }
            i += 1;
        }
        0
    }
}

/// The first sheet named `name` stands at `i`.
proof fn lemma_first_named_at(names: Seq<Seq<char>>, name: Seq<char>, i: int)
    requires
        0 <= i < names.len(),
        names[i] == name,
        forall|j: int| 0 <= j < i ==> names[j] != name,
    ensures
        first_named(names, name) == i,
{
    let c = choose|k: int|
        0 <= k < names.len() && names[k] == name && forall|j: int| 0 <= j < k ==> names[j] != name;
    assert(0 <= c < names.len() && names[c] == name && forall|j: int| 0 <= j < c ==> names[j] != name);
    assert(c == i);
}

/// Relies on std's `{:08x}` formatting: eight lowercase hexadecimal digits of
/// the value, zero-padded on the left.
#[verifier::external_body]
fn hex8(v: u32) -> (r: String)
    ensures
        r@ == hex_of(v as nat, 8),
{
    format!("{:08x}", v)
}

impl ExcelBook {
    /// The names of the sheets, in order.
    pub closed spec fn names(&self) -> Seq<Seq<char>> {
        name_views(self.sheet_names@)
    }

    /// The ordinal of the active sheet, if any.
    pub closed spec fn active(&self) -> Option<int> {
        match self.active_sheet {
            Some(i) => Some(i as int),
            None => None,
        }
    }

    /// Whether the book uses the XML-based format.
    pub closed spec fn xml(&self) -> bool {
        self.is_xlsx
    }

    /// The sheet count fits the engine's integer and the active sheet exists.
    pub closed spec fn wf(&self) -> bool {
        &&& self.sheet_names@.len() <= MAX_SHEETS
        &&& self.active_sheet matches Some(i) ==> i < self.sheet_names@.len()
    }

    /// A book with no sheets and no active sheet, in the XML-based format
    /// when `is_xlsx` holds and in the legacy binary format otherwise.
    pub fn new(is_xlsx: bool) -> (r: ExcelBook)
        ensures
            r.wf(),
            r.names() == Seq::<Seq<char>>::empty(),
            r.active() is None,
            r.xml() == is_xlsx,
    {
        let r = ExcelBook { is_xlsx, sheet_names: Vec::new(), active_sheet: None };
        assert(r.names() =~= Seq::<Seq<char>>::empty());
        r
    }

    /// Whether the book uses the XML-based format.
    pub fn is_xlsx(&self) -> (r: bool)
        ensures
            r == self.xml(),
    {
        self.is_xlsx
    }

    /// The buffers that carry the licence name and key to the engine.
    pub fn set_license(&self, license_name: &str, license_key: &str) -> (r: Result<
        (Vec<u16>, Vec<u16>),
        CodecError,
    >)
        ensures
            r is Ok <==> no_interior_nul(license_name@) && no_interior_nul(license_key@),
            r matches Ok((n, k)) ==> encodes(license_name@, Ok(n)) && encodes(license_key@, Ok(k)),
            r matches Err(e) ==> e == CodecError::InteriorNul,
    {
        let n = encode(license_name)?;
        let k = encode(license_key)?;
        Ok((n, k))
    }

    /// Appends a sheet named `name` and makes it the active sheet; returns
    /// the buffer that carries the name to the engine. A name that cannot be
    /// encoded leaves the book unchanged.
    pub fn add_sheet(&mut self, name: &str) -> (r: Result<Vec<u16>, CodecError>)
        requires
            old(self).wf(),
            old(self).names().len() < MAX_SHEETS,
        ensures
            final(self).wf(),
            encodes(name@, r),
            final(self).xml() == old(self).xml(),
            r is Ok ==> final(self).names() == old(self).names().push(name@),
            r is Ok ==> final(self).active() == Some(old(self).names().len() as int),
            r is Err ==> *final(self) == *old(self),
    {
        let buf = encode(name)?;
        let ghost before = self.sheet_names@;
        self.sheet_names.push(name.to_owned());
        self.active_sheet = Some(self.sheet_names.len() - 1);
        assert(name_views(self.sheet_names@) =~= name_views(before).push(name@));
        Ok(buf)
    }

    /// Makes the sheet that `index` resolves to the active one and returns
    /// its ordinal; when no sheet has that ordinal, no sheet is active.
    pub fn select_sheet<T: SheetIndex>(&mut self, index: T) -> (r: i32)
        requires
            old(self).wf(),
        ensures
            final(self).wf(),
            r as int == index.resolves_to(old(self).names()),
            final(self).names() == old(self).names(),
            final(self).xml() == old(self).xml(),
            final(self).active() == (if 0 <= r < old(self).names().len() {
                Some(r as int)
            } else {
                None
            }),
    {
        let r = index.sheet_index(self);
        if 0 <= r && (r as usize) < self.sheet_names.len() {
            self.active_sheet = Some(r as usize);
        } else {
            self.active_sheet = None;
        }
        r
    }

    /// The number of sheets.
    pub fn sheet_count(&self) -> (r: i32)
        requires
            self.wf(),
        ensures
            r as int == self.names().len(),
    {
        self.sheet_names.len() as i32
    }

    /// The name of the sheet at `index`.
    pub fn sheet_name(&self, index: i32) -> (r: String)
        requires
            self.wf(),
            0 <= index < self.names().len(),
        ensures
            r@ == self.names()[index as int],
    {
        self.sheet_names[index as usize].clone()
    }

    /// The ordinal of the active sheet, if any; cell reads and writes go to
    /// it, and are no-ops without one.
    pub fn active_sheet(&self) -> (r: Option<i32>)
        requires
            self.wf(),
        ensures
            r matches Some(i) ==> self.active() == Some(i as int),
            r is None <==> self.active() is None,
    {
        match self.active_sheet {
            Some(i) => Some(i as i32),
            None => None,
        }
    }

    /// The text of a cell, from the buffer the engine handed back.
    pub fn read_str(&self, reply: &[u16]) -> (r: Result<String, CodecError>)
        ensures
            decodes(reply@, r),
    {
        decode(reply)
    }

    /// The buffer that carries `value` to the engine as a cell's text.
    pub fn write_str(&self, value: &str) -> (r: Result<Vec<u16>, CodecError>)
        ensures
            encodes(value@, r),
    {
        encode(value)
    }

    /// The boolean a cell holds, from the integer the engine handed back:
    /// zero is false, anything else true.
    pub fn read_bool(&self, reply: i32) -> (r: bool)
        ensures
            r == code_bool(reply),
    {
        if reply == 0 {
            false
        } else {
            true
        }
    }

    /// The integer that carries `value` to the engine: 1 or 0.
    pub fn write_bool(&self, value: bool) -> (r: i32)
        ensures
            r == bool_code(value),
    {
        if value {
            1
        } else {
            0
        }
    }

    /// The buffer that carries `path` to the engine for loading.
    pub fn load(&self, path: &str) -> (r: Result<Vec<u16>, CodecError>)
        ensures
            encodes(path@, r),
    {
        encode(path)
    }

    /// Takes in the sheets of a book the engine has just loaded; the first
    /// sheet, if there is one, becomes the active sheet.
    pub fn loaded(&mut self, sheet_names: Vec<String>)
        requires
            sheet_names@.len() <= MAX_SHEETS,
        ensures
            final(self).wf(),
            final(self).names() == name_views(sheet_names@),
            final(self).xml() == old(self).xml(),
            final(self).active() == (if sheet_names@.len() > 0 {
                Some(0int)
            } else {
                None
            }),
    {
        let n = sheet_names.len();
        self.sheet_names = sheet_names;
        self.active_sheet = if n > 0 {
            Some(0)
        } else {
            None
        };
    }

    /// The buffer that carries `path` to the engine for saving.
    pub fn save(&self, path: &str) -> (r: Result<Vec<u16>, CodecError>)
        ensures
            encodes(path@, r),
    {
        encode(path)
    }

    /// The engine's version code as eight lowercase hexadecimal digits of
    /// its 32 bits.
    pub fn version(&self, code: i32) -> (r: String)
        ensures
            r@ == hex_of(code as u32 as nat, 8),
    {
        hex8(code as u32)
    }
}

/// An ordinal below the sheet count resolves to itself.
pub proof fn lemma_ordinal_in_range_resolves_to_itself(i: i32, names: Seq<Seq<char>>)
    requires
        0 <= i < names.len(),
    ensures
        i.resolves_to(names) == i as int,
{
}

/// An ordinal above the sheet count, or a negative one, resolves to 0.
pub proof fn lemma_ordinal_out_of_range_resolves_to_first(i: i32, names: Seq<Seq<char>>)
    requires
        i < 0 || i > names.len(),
    ensures
        i.resolves_to(names) == 0,
{
}

/// A name resolves to the smallest ordinal of a sheet with that name, and to
/// 0 when no sheet has it.
pub proof fn lemma_name_resolves_to_first_match(name: &str, names: Seq<Seq<char>>)
    ensures
        (exists|i: int| 0 <= i < names.len() && names[i] == name@) ==> {
            let r = name.resolves_to(names);
            &&& 0 <= r < names.len()
            &&& names[r] == name@
            &&& forall|j: int| 0 <= j < r ==> names[j] != name@
        },
        !(exists|i: int| 0 <= i < names.len() && names[i] == name@) ==> name.resolves_to(names) == 0,
{
    if exists|i: int| 0 <= i < names.len() && names[i] == name@ {
        let w = choose|i: int| 0 <= i < names.len() && names[i] == name@;
        lemma_least_match_exists(names, name@, w);
    }
}

/// Below any sheet named `name` stands a first one.
proof fn lemma_least_match_exists(names: Seq<Seq<char>>, name: Seq<char>, w: int)
    requires
        0 <= w < names.len(),
        names[w] == name,
    ensures
        exists|i: int|
            0 <= i < names.len() && names[i] == name && forall|j: int| 0 <= j < i ==> names[j] != name,
    decreases w,
{
    if exists|j: int| 0 <= j < w && names[j] == name {
        let v = choose|j: int| 0 <= j < w && names[j] == name;
        lemma_least_match_exists(names, name, v);
    } else {
        assert(forall|j: int| 0 <= j < w ==> names[j] != name);
    }
}

/// A boolean written to a cell reads back unchanged, and any nonzero engine
/// integer reads as true.
pub proof fn lemma_bool_round_trip(b: bool, c: i32)
    ensures
        code_bool(bool_code(b)) == b,
        c != 0 ==> code_bool(c),
{
}

} // verus!
