//! The naming table: record iteration, text decoding and name resolution.
pub mod name_id;

use crate::parser::{read_u16_at, record_at, u16_at, LazyArray, Stream};
use crate::{Error, Font};
use vstd::prelude::*;

verus! {

/// The size of one name record in bytes.
pub const NAME_RECORD_SIZE: usize = 12;

/// The size of one language-tag record in bytes.
pub const LANG_TAG_RECORD_SIZE: u16 = 4;

/// The Windows encoding ID of Unicode BMP text.
pub const WINDOWS_UNICODE_BMP_ENCODING_ID: u16 = 1;

/// A platform ID.
#[derive(Clone, Copy, PartialEq, Eq, Debug, Structural)]
pub enum PlatformId {
    Unicode,
    Macintosh,
    Iso,
    Windows,
    Custom,
}

/// The platform that a raw platform ID stands for.
pub open spec fn platform_of(n: u16) -> Option<PlatformId> {
    if n == 0 {
        Some(PlatformId::Unicode)
    } else if n == 1 {
        Some(PlatformId::Macintosh)
    } else if n == 2 {
        Some(PlatformId::Iso)
    } else if n == 3 {
        Some(PlatformId::Windows)
    } else if n == 4 {
        Some(PlatformId::Custom)
    } else {
        None
    }
}

impl PlatformId {
    /// The platform that the raw value `n` stands for, if any.
    pub fn from_u16(n: u16) -> (r: Option<PlatformId>)
        ensures
            r == platform_of(n),
    {
        match n {
            0 => Some(PlatformId::Unicode),
            1 => Some(PlatformId::Macintosh),
            2 => Some(PlatformId::Iso),
            3 => Some(PlatformId::Windows),
            4 => Some(PlatformId::Custom),
            _ => None,
        }
    }
}

/// Whether text of this platform and encoding is stored as UTF-16BE.
pub open spec fn unicode_encoding(platform_id: PlatformId, encoding_id: u16) -> bool {
    platform_id == PlatformId::Unicode || (platform_id == PlatformId::Windows && encoding_id
        == WINDOWS_UNICODE_BMP_ENCODING_ID)
}

/// Whether text of this platform and encoding is stored as UTF-16BE.
pub fn is_unicode_encoding(platform_id: PlatformId, encoding_id: u16) -> (r: bool)
    ensures
        r == unicode_encoding(platform_id, encoding_id),
{
    match platform_id {
        PlatformId::Unicode => true,
        PlatformId::Windows => encoding_id == WINDOWS_UNICODE_BMP_ENCODING_ID,
        _ => false,
    }
}

/// The raw platform ID of a name record.
pub open spec fn rec_platform_id(rec: Seq<u8>) -> u16 {
    u16_at(rec, 0)
}

/// The encoding ID of a name record.
pub open spec fn rec_encoding_id(rec: Seq<u8>) -> u16 {
    u16_at(rec, 2)
}

/// The language ID of a name record.
pub open spec fn rec_language_id(rec: Seq<u8>) -> u16 {
    u16_at(rec, 4)
}

/// The name ID of a name record.
pub open spec fn rec_name_id(rec: Seq<u8>) -> u16 {
    u16_at(rec, 6)
}

/// The string length of a name record.
pub open spec fn rec_length(rec: Seq<u8>) -> u16 {
    u16_at(rec, 8)
}

/// The string offset of a name record, from the start of the storage.
pub open spec fn rec_offset(rec: Seq<u8>) -> u16 {
    u16_at(rec, 10)
}

/// Whether a name record's text can be decoded: Unicode platform, or Windows
/// platform with the Unicode BMP encoding.
pub open spec fn rec_is_unicode(rec: Seq<u8>) -> bool {
    match platform_of(rec_platform_id(rec)) {
        Some(p) => unicode_encoding(p, rec_encoding_id(rec)),
        None => false,
    }
}

/// The string bytes of a name record: its range of the storage, or nothing
/// when the range does not lie inside the storage.
pub open spec fn name_bytes(rec: Seq<u8>, storage: Seq<u8>) -> Seq<u8> {
    let start = rec_offset(rec) as int;
    let end = start + rec_length(rec) as int;
    if end <= storage.len() {
        storage.subrange(start, end)
    } else {
        Seq::empty()
    }
}

/// The big-endian 16-bit code units of `b`; a trailing odd byte is ignored.
pub open spec fn utf16_units(b: Seq<u8>) -> Seq<u16> {
    Seq::new((b.len() / 2) as nat, |i: int| u16_at(b, 2 * i))
}

/// The text that a sequence of UTF-16 code units decodes to, or `None` when
/// the sequence is not valid UTF-16.
pub uninterp spec fn utf16_text(units: Seq<u16>) -> Option<Seq<char>>;

/// `r` holds exactly the text `t`.
pub open spec fn holds_text(r: Option<String>, t: Option<Seq<char>>) -> bool {
    &&& r.is_some() == t.is_some()
    &&& r.is_some() ==> r.unwrap()@ == t.unwrap()
}

/// Relies on `String::from_utf16`: decodes UTF-16 code units into text and
/// fails on unpaired surrogates; the result depends on the units alone.
#[verifier::external_body]
fn string_from_utf16(units: &Vec<u16>) -> (r: Option<String>)
    ensures
        holds_text(r, utf16_text(units@)),
{
    String::from_utf16(units).ok()
}

/// A fixed-size name record, read field by field on demand.
#[derive(Clone, Copy)]
pub struct NameRecord<'a> {
    data: &'a [u8],
}

impl<'a> NameRecord<'a> {
    /// The record's bytes.
    pub closed spec fn bytes(&self) -> Seq<u8> {
        self.data@
    }

    /// A record over the given bytes.
    pub fn new(data: &'a [u8]) -> (r: NameRecord<'a>)
        requires
            data@.len() == NAME_RECORD_SIZE,
        ensures
            r.bytes() == data@,
    {
        NameRecord { data }
    }

    /// The raw platform ID.
    pub fn platform_id(&self) -> (r: u16)
        requires
            self.bytes().len() == NAME_RECORD_SIZE,
        ensures
            r == rec_platform_id(self.bytes()),
    {
        read_u16_at(self.data, 0)
    }

    /// The encoding ID.
    pub fn encoding_id(&self) -> (r: u16)
        requires
            self.bytes().len() == NAME_RECORD_SIZE,
        ensures
            r == rec_encoding_id(self.bytes()),
    {
        read_u16_at(self.data, 2)
    }

    /// The language ID.
    pub fn language_id(&self) -> (r: u16)
        requires
            self.bytes().len() == NAME_RECORD_SIZE,
        ensures
            r == rec_language_id(self.bytes()),
    {
        read_u16_at(self.data, 4)
    }

    /// The name ID.
    pub fn name_id(&self) -> (r: u16)
        requires
            self.bytes().len() == NAME_RECORD_SIZE,
        ensures
            r == rec_name_id(self.bytes()),
    {
        read_u16_at(self.data, 6)
    }

    /// The length of the string in bytes.
    pub fn length(&self) -> (r: u16)
        requires
            self.bytes().len() == NAME_RECORD_SIZE,
        ensures
            r == rec_length(self.bytes()),
    {
        read_u16_at(self.data, 8)
    }

    /// The offset of the string from the start of the storage.
    pub fn offset(&self) -> (r: u16)
        requires
            self.bytes().len() == NAME_RECORD_SIZE,
        ensures
            r == rec_offset(self.bytes()),
    {
        read_u16_at(self.data, 10)
    }
}

/// A name record together with the string storage it points into.
#[derive(Clone, Copy)]
pub struct Name<'a> {
    data: NameRecord<'a>,
    strings: &'a [u8],
}

impl<'a> Name<'a> {
    /// The record's bytes.
    pub closed spec fn record(&self) -> Seq<u8> {
        self.data.bytes()
    }

    /// The string storage of the table the record belongs to.
    pub closed spec fn storage(&self) -> Seq<u8> {
        self.strings@
    }

    /// The record has the size of a name record.
    pub open spec fn wf(&self) -> bool {
        self.record().len() == NAME_RECORD_SIZE
    }

    /// The text of this record, decoded from its UTF-16BE bytes.
    pub open spec fn text(&self) -> Option<Seq<char>> {
        utf16_text(utf16_units(name_bytes(self.record(), self.storage())))
    }

    /// Parses the platform ID.
    pub fn platform_id(&self) -> (r: Option<PlatformId>)
        requires
            self.wf(),
        ensures
            r == platform_of(rec_platform_id(self.record())),
    {
        PlatformId::from_u16(self.data.platform_id())
    }

    /// Parses the platform-specific encoding ID.
    pub fn encoding_id(&self) -> (r: u16)
        requires
            self.wf(),
        ensures
            r == rec_encoding_id(self.record()),
    {
        self.data.encoding_id()
    }

    /// Parses the language ID.
    pub fn language_id(&self) -> (r: u16)
        requires
            self.wf(),
        ensures
            r == rec_language_id(self.record()),
    {
        self.data.language_id()
    }

    /// Parses the name ID; well-known values are listed in [`name_id`].
    pub fn name_id(&self) -> (r: u16)
        requires
            self.wf(),
        ensures
            r == rec_name_id(self.record()),
    {
        self.data.name_id()
    }

    /// The record's string bytes; empty when the record points outside the
    /// storage.
    pub fn name(&self) -> (r: &'a [u8])
        requires
            self.wf(),
        ensures
            r@ == name_bytes(self.record(), self.storage()),
    {
        let start = self.data.offset() as usize;
        let end = start + self.data.length() as usize;
        if end <= self.strings.len() {
            vstd::slice::slice_subrange(self.strings, start, end)
        } else {
            &[]
        }
    }

    /// Whether the record's text is stored as UTF-16BE.
    pub fn is_unicode(&self) -> (r: bool)
        requires
            self.wf(),
        ensures
            r == rec_is_unicode(self.record()),
    {
        match self.platform_id() {
            Some(p) => is_unicode_encoding(p, self.encoding_id()),
            None => false,
        }
    }

    /// Decodes the record's bytes as UTF-16BE text, whatever its platform.
    pub fn name_from_utf16_be(&self) -> (r: Option<String>)
        requires
            self.wf(),
        ensures
            holds_text(r, self.text()),
    {
        let bytes = self.name();
        let units = LazyArray::new(bytes, 2);
        let n = units.len();
        let mut name: Vec<u16> = Vec::new();
        let mut i: usize = 0;
        while i < n
            invariant
                units.bytes() == bytes@,
                units.stride() == 2,
                n == units.spec_len(),
                i <= n,
                name@ == utf16_units(bytes@).take(i as int),
            decreases n - i,
        {
            let unit = match units.get(i) {
                Some(rec) => read_u16_at(rec, 0),
                None => 0,
            };
            name.push(unit);
            i = i + 1;
            assert(name@ =~= utf16_units(bytes@).take(i as int));
        }
        assert(name@ =~= utf16_units(bytes@));
        string_from_utf16(&name)
    }

    /// Decodes the record's text, for Unicode records only.
    pub fn name_utf8(&self) -> (r: Option<String>)
        requires
            self.wf(),
        ensures
            rec_is_unicode(self.record()) ==> holds_text(r, self.text()),
            !rec_is_unicode(self.record()) ==> r is None,
    {
        if self.is_unicode() {
            self.name_from_utf16_be()
        } else {
            None
        }
    }
}

/// A lazy, re-iterable sequence of the name records of a table.
#[derive(Clone, Copy)]
pub struct Names<'a> {
    names: &'a [u8],
    storage: &'a [u8],
    index: u16,
    total: u16,
}

impl<'a> Names<'a> {
    /// The record region.
    pub closed spec fn region(&self) -> Seq<u8> {
        self.names@
    }

    /// The string storage the records point into.
    pub closed spec fn storage(&self) -> Seq<u8> {
        self.storage@
    }

    /// The index of the next record to be returned by `next`.
    pub closed spec fn index(&self) -> int {
        self.index as int
    }

    /// The number of records.
    pub closed spec fn total(&self) -> int {
        self.total as int
    }

    /// The count of records matches the region and the position is in range.
    pub open spec fn wf(&self) -> bool {
        &&& self.total() == self.region().len() as int / NAME_RECORD_SIZE as int
        &&& 0 <= self.index() <= self.total()
    }

    /// The record at index `i` as a handle.
    pub open spec fn record(&self, i: int) -> Seq<u8> {
        record_at(self.region(), NAME_RECORD_SIZE as int, i)
    }

    pub(crate) fn new(names: &'a [u8], storage: &'a [u8]) -> (r: Names<'a>)
        requires
            record_count(names@) <= u16::MAX,
        ensures
            r.wf(),
            r.region() == names@,
            r.storage() == storage@,
            r.index() == 0,
    {
        Names { names, storage, index: 0, total: (names.len() / NAME_RECORD_SIZE) as u16 }
    }

    /// A sequence with no records.
    pub fn empty() -> (r: Names<'a>)
        ensures
            r.wf(),
            r.region() == Seq::<u8>::empty(),
            r.storage() == Seq::<u8>::empty(),
            r.index() == 0,
    {
        Names { names: &[], storage: &[], index: 0, total: 0 }
    }

    /// The number of records.
    pub fn len(&self) -> (r: usize)
        ensures
            r == self.total(),
    {
        self.total as usize
    }

    /// The record at index `n`, counted from the first record of the table
    /// whatever the position; `None` past the last record.
    pub fn nth(&self, n: usize) -> (r: Option<Name<'a>>)
        requires
            self.wf(),
        ensures
            n < self.total() ==> r is Some && r->Some_0.wf() && r->Some_0.record()
                == self.record(n as int) && r->Some_0.storage() == self.storage(),
            n >= self.total() ==> r is None,
    {
        let records = LazyArray::new(self.names, NAME_RECORD_SIZE);
        match records.get(n) {
            Some(data) => Some(Name { data: NameRecord::new(data), strings: self.storage }),
            None => None,
        }
    }

    /// The record at the current position, moving past it; `None` once every
    /// record has been returned.
    pub fn next(&mut self) -> (r: Option<Name<'a>>)
        requires
            old(self).wf(),
        ensures
            final(self).wf(),
            final(self).region() == old(self).region(),
            final(self).storage() == old(self).storage(),
            final(self).total() == old(self).total(),
            old(self).index() < old(self).total() ==> r is Some && r->Some_0.wf()
                && r->Some_0.record() == old(self).record(old(self).index())
                && r->Some_0.storage() == old(self).storage() && final(self).index() == old(
                self,
            ).index() + 1,
            old(self).index() >= old(self).total() ==> r is None && final(self).index() == old(
                self,
            ).index(),
    {
        if self.index < self.total {
            self.index = self.index + 1;
            self.nth(self.index as usize - 1)
        } else {
            None
        }
    }
}

/// Where the record region and the string storage of a naming table lie,
/// given that the record region starts at byte `start` and holds `count`
/// records.
pub open spec fn regions_from(d: Seq<u8>, start: int, count: u16) -> Result<
    (Seq<u8>, Seq<u8>),
    Error,
> {
    let end = start + NAME_RECORD_SIZE as int * count as int;
    if end <= d.len() {
        Ok((d.subrange(start, end), d.subrange(end, d.len() as int)))
    } else {
        Err(Error::ReadOutOfBounds)
    }
}

/// The record region and string storage of the naming table `d`.
///
/// The header is a format, a record count and a storage offset (unused). In
/// format 0 the records follow it; in format 1 a language-tag count and that
/// many four-byte language-tag records come first. Any other format is
/// malformed.
pub open spec fn name_table_regions(d: Seq<u8>) -> Result<(Seq<u8>, Seq<u8>), Error> {
    if d.len() < 6 {
        Err(Error::ReadOutOfBounds)
    } else if u16_at(d, 0) == 0 {
        regions_from(d, 6, u16_at(d, 2))
    } else if u16_at(d, 0) == 1 {
        if d.len() < 8 {
            Err(Error::ReadOutOfBounds)
        } else if u16_at(d, 6) as int * LANG_TAG_RECORD_SIZE as int > u16::MAX {
            Err(Error::ArithmeticOverflow)
        } else {
            regions_from(d, 8 + u16_at(d, 6) as int * LANG_TAG_RECORD_SIZE as int, u16_at(d, 2))
        }
    } else {
        Err(Error::MalformedRecordRegion)
    }
}

/// The record region and storage that a font's names are read from: empty
/// when the font has no naming table or the table is malformed.
pub open spec fn name_regions(data: Option<Seq<u8>>) -> (Seq<u8>, Seq<u8>) {
    match data {
        Some(d) => match name_table_regions(d) {
            Ok(p) => p,
            Err(_) => (Seq::empty(), Seq::empty()),
        },
        None => (Seq::empty(), Seq::empty()),
    }
}

/// Record `i` of the region `recs` is a Unicode record with name ID `id`.
pub open spec fn record_matches(recs: Seq<u8>, i: int, id: u16) -> bool {
    let rec = record_at(recs, NAME_RECORD_SIZE as int, i);
    rec_name_id(rec) == id && rec_is_unicode(rec)
}

/// The lowest index below `n` of a Unicode record with name ID `id`.
pub open spec fn first_match(recs: Seq<u8>, n: int, id: u16) -> Option<int>
    decreases n,
{
    if n <= 0 {
        None
    } else {
        match first_match(recs, n - 1, id) {
            Some(i) => Some(i),
            None => if record_matches(recs, n - 1, id) {
                Some(n - 1)
            } else {
                None
            },
        }
    }
}

/// The highest index below `n` of a Unicode record with name ID `id`.
pub open spec fn last_match(recs: Seq<u8>, n: int, id: u16) -> Option<int>
    decreases n,
{
    if n <= 0 {
        None
    } else if record_matches(recs, n - 1, id) {
        Some(n - 1)
    } else {
        last_match(recs, n - 1, id)
    }
}

/// The number of whole records in a record region.
pub open spec fn record_count(recs: Seq<u8>) -> int {
    recs.len() as int / NAME_RECORD_SIZE as int
}

/// The record that gives the family name: the first Unicode Typographic
/// Family record, or else the last Unicode Family record.
pub open spec fn family_index(recs: Seq<u8>) -> Option<int> {
    match first_match(recs, record_count(recs), name_id::TYPOGRAPHIC_FAMILY) {
        Some(i) => Some(i),
        None => last_match(recs, record_count(recs), name_id::FAMILY),
    }
}

/// The record that gives the PostScript name: the first Unicode PostScript
/// Name record.
pub open spec fn post_script_index(recs: Seq<u8>) -> Option<int> {
    first_match(recs, record_count(recs), name_id::POST_SCRIPT_NAME)
}

/// The decoded text of the record chosen by `idx`, if any.
pub open spec fn chosen_text(recs: Seq<u8>, storage: Seq<u8>, idx: Option<int>) -> Option<
    Seq<char>,
> {
    match idx {
        Some(i) => utf16_text(
            utf16_units(name_bytes(record_at(recs, NAME_RECORD_SIZE as int, i), storage)),
        ),
        None => None,
    }
}

/// What `first_match` finds is a match below `n`, and it stays found as `n`
/// grows.
pub proof fn lemma_first_match(recs: Seq<u8>, n: int, m: int, id: u16)
    requires
        n <= m,
    ensures
        first_match(recs, n, id) is Some ==> ({
            let i = first_match(recs, n, id)->Some_0;
            0 <= i < n && record_matches(recs, i, id) && first_match(recs, m, id) == Some(i)
        }),
    decreases m,
{
    if n <= 0 {
    } else if m > n {
        lemma_first_match(recs, n, m - 1, id);
    } else {
        lemma_first_match(recs, n - 1, n - 1, id);
    }
}

/// What `last_match` finds is a match below `n`.
pub proof fn lemma_last_match(recs: Seq<u8>, n: int, id: u16)
    ensures
        last_match(recs, n, id) is Some ==> ({
            let i = last_match(recs, n, id)->Some_0;
            0 <= i < n && record_matches(recs, i, id)
        }),
    decreases n,
{
    if n > 0 {
        lemma_last_match(recs, n - 1, id);
    }
}

spec fn same_index(a: Option<usize>, b: Option<int>) -> bool {
    &&& a.is_some() == b.is_some()
    &&& a.is_some() ==> a.unwrap() as int == b.unwrap()
}

impl<'a> Font<'a> {
    /// Returns an iterator over the name records; empty when the font has no
    /// naming table or the table is malformed.
    pub fn names(&self) -> (r: Names<'a>)
        ensures
            r.wf(),
            r.region() == name_regions(self.name_data()).0,
            r.storage() == name_regions(self.name_data()).1,
            r.index() == 0,
    {
        match self._names() {
            Ok(v) => v,
            Err(_) => Names::empty(),
        }
    }

    /// Locates the record region and string storage of the naming table.
    pub fn _names(&self) -> (r: Result<Names<'a>, Error>)
        ensures
            self.name_data() is None ==> r is Err && r->Err_0 == Error::TableMissing,
            self.name_data() is Some ==> match name_table_regions(self.name_data().unwrap()) {
                Ok(p) => r is Ok && r->Ok_0.wf() && r->Ok_0.region() == p.0 && r->Ok_0.storage()
                    == p.1 && r->Ok_0.index() == 0,
                Err(e) => r is Err && r->Err_0 == e,
            },
    {
        let data = match self.name_table() {
            Some(d) => d,
            None => return Err(Error::TableMissing),
        };
        let mut s = Stream::new(data);
        let format = s.read_u16()?;
        let count = s.read_u16()?;
        s.skip_u16()?;  // offset to the storage, which directly follows the records
        if format == 0 {
            let names = s.read_bytes(NAME_RECORD_SIZE * count as usize)?;
            let storage = s.tail()?;
            Ok(Names::new(names, storage))
        } else if format == 1 {
            let lang_tag_count = s.read_u16()?;
            let lang_tag_len = match lang_tag_count.checked_mul(LANG_TAG_RECORD_SIZE) {
                Some(n) => n,
                None => return Err(Error::ArithmeticOverflow),
            };
            s.advance(lang_tag_len as usize)?;
            let names = s.read_bytes(NAME_RECORD_SIZE * count as usize)?;
            let storage = s.tail()?;
            Ok(Names::new(names, storage))
        } else {
            Err(Error::MalformedRecordRegion)
        }
    }

    /// Returns the font's family name: Typographic Family is preferred over
    /// Family, and only Unicode records are considered.
    pub fn family_name(&self) -> (r: Option<String>)
        ensures
            holds_text(
                r,
                chosen_text(
                    name_regions(self.name_data()).0,
                    name_regions(self.name_data()).1,
                    family_index(name_regions(self.name_data()).0),
                ),
            ),
    {
        let all = self.names();
        let ghost recs = all.region();
        let ghost n = all.total();
        let mut iter = all;
        let mut idx: Option<usize> = None;
        let mut done = false;
        let mut i: usize = 0;
        while !done
            invariant
                i == iter.index() || done,
                all.wf(),
                iter.wf(),
                iter.region() == recs,
                iter.storage() == all.storage(),
                iter.total() == n,
                n == record_count(recs),
                idx is Some ==> idx->Some_0 < n,
                !done ==> first_match(recs, iter.index(), name_id::TYPOGRAPHIC_FAMILY) is None
                    && same_index(idx, last_match(recs, iter.index(), name_id::FAMILY)),
                done ==> same_index(idx, family_index(recs)),
            decreases n - iter.index() + if done { 0int } else { 1int },
        {
            let ghost at = iter.index();
            match iter.next() {
                None => {
                    done = true;
                },
                Some(name) => {
                    if name.name_id() == name_id::TYPOGRAPHIC_FAMILY && name.is_unicode() {
                        // Typographic Family wins at its first occurrence.
                        idx = Some(i);
                        done = true;
                        proof {
                            lemma_first_match(recs, at + 1, n, name_id::TYPOGRAPHIC_FAMILY);
                        }
                    } else if name.name_id() == name_id::FAMILY && name.is_unicode() {
                        // A later Typographic Family may still override it.
                        idx = Some(i);
                    }
                    i = i + 1;
                },
            }
        }
        match idx {
            Some(i) => match all.nth(i) {
                Some(name) => name.name_from_utf16_be(),
                None => None,
            },
            None => None,
        }
    }

    /// Returns the font's PostScript name: the first Unicode PostScript Name
    /// record.
    pub fn post_script_name(&self) -> (r: Option<String>)
        ensures
            holds_text(
                r,
                chosen_text(
                    name_regions(self.name_data()).0,
                    name_regions(self.name_data()).1,
                    post_script_index(name_regions(self.name_data()).0),
                ),
            ),
    {
        let mut iter = self.names();
        let ghost recs = iter.region();
        let ghost storage = iter.storage();
        let ghost n = iter.total();
        loop
            invariant
                iter.wf(),
                iter.region() == recs,
                iter.storage() == storage,
                iter.total() == n,
                n == record_count(recs),
                recs == name_regions(self.name_data()).0,
                storage == name_regions(self.name_data()).1,
                first_match(recs, iter.index(), name_id::POST_SCRIPT_NAME) is None,
            decreases n - iter.index(),
        {
            let ghost at = iter.index();
            match iter.next() {
                None => {
                    return None;
                },
                Some(name) => {
                    if name.name_id() == name_id::POST_SCRIPT_NAME && name.is_unicode() {
                        proof {
                            lemma_first_match(recs, at + 1, n, name_id::POST_SCRIPT_NAME);
                        }
                        return name.name_from_utf16_be();
                    }
                },
            }
        }
    }
}

/// Format 0 puts the records right after the six-byte header; format 1 puts
/// them after the language-tag count and exactly four bytes per language tag;
/// any other format gives no names at all.
pub proof fn lemma_format_dispatch(d: Seq<u8>)
    requires
        d.len() >= 6,
    ensures
        u16_at(d, 0) == 0 ==> name_table_regions(d) == regions_from(d, 6, u16_at(d, 2)),
        u16_at(d, 0) == 1 && d.len() >= 8 && u16_at(d, 6) < 16384 ==> name_table_regions(d) == regions_from(
            d,
            8 + 4 * u16_at(d, 6) as int,
            u16_at(d, 2),
        ),
        u16_at(d, 0) > 1 ==> name_regions(Some(d)) == (Seq::<u8>::empty(), Seq::<u8>::empty()),
{
}

/// A format-1 table whose language-tag count, times four, does not fit in 16
/// bits is rejected as an overflow and yields no names.
pub proof fn lemma_lang_tag_overflow_rejected(d: Seq<u8>)
    requires
        d.len() >= 8,
        u16_at(d, 0) == 1,
        u16_at(d, 6) >= 16384,
    ensures
        name_table_regions(d) == Err::<(Seq<u8>, Seq<u8>), Error>(Error::ArithmeticOverflow),
        name_regions(Some(d)) == (Seq::<u8>::empty(), Seq::<u8>::empty()),
{
}

/// A record that is not Unicode (a Macintosh record, say) is never the one
/// that gives the family name or the PostScript name.
pub proof fn lemma_non_unicode_never_selected(recs: Seq<u8>, i: int)
    requires
        !rec_is_unicode(record_at(recs, NAME_RECORD_SIZE as int, i)),
    ensures
        family_index(recs) != Some(i),
        post_script_index(recs) != Some(i),
{
    let n = record_count(recs);
    lemma_first_match(recs, n, n, name_id::TYPOGRAPHIC_FAMILY);
    lemma_first_match(recs, n, n, name_id::POST_SCRIPT_NAME);
    lemma_last_match(recs, n, name_id::FAMILY);
}

} // verus!
