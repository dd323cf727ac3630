//! Large objects: what is kept of one, and what each operation does to it.
//!
//! A large object either lives in memory or is reached by a locator over a connection. Text is
//! turned into bytes and back by the driver; this module works on what it gives.
use vstd::prelude::*;

use crate::errors::{database_error, dpy_database_error, not_implemented, Fault};
#[allow(unused_imports)]
use crate::errors::{database_view, lemma_ora_number, FaultView};
use crate::text::{chars_of, owned, slice_text};
#[allow(unused_imports)]
use crate::value::bytes_view;
use crate::value::{BindValue, CsForm, OraType};

verus! {

pub struct FileName {
    pub dir_alias: String,
    pub name: String,
}

pub struct Lob {
    /// The contents, for an object that lives in memory.
    pub data: Option<Vec<u8>>,
    pub locator: Option<Vec<u8>>,
    pub ora_type: OraType,
    pub csfrm: CsForm,
    /// In characters for text, else in bytes.
    pub size: u64,
    pub chunk_size: u32,
    /// The object belongs to a connection.
    pub has_context: bool,
    pub is_open: bool,
    pub bfile_name: Option<FileName>,
}

pub ghost struct LobModel {
    pub data: Option<Seq<u8>>,
    pub locator: Option<Seq<u8>>,
    pub ora_type: OraType,
    pub csfrm: CsForm,
    pub size: u64,
    pub chunk_size: u32,
    pub has_context: bool,
    pub is_open: bool,
    pub bfile_name: Option<(Seq<char>, Seq<char>)>,
}

impl View for Lob {
    type V = LobModel;

    open spec fn view(&self) -> LobModel {
        LobModel {
            data: bytes_view(self.data),
            locator: bytes_view(self.locator),
            ora_type: self.ora_type,
            csfrm: self.csfrm,
            size: self.size,
            chunk_size: self.chunk_size,
            has_context: self.has_context,
            is_open: self.is_open,
            bfile_name: match self.bfile_name {
                Some(f) => Some((f.dir_alias@, f.name@)),
                None => None,
            },
        }
    }
}

impl LobModel {
    pub open spec fn kept_in_memory(
        ora_type: OraType,
        csfrm: CsForm,
        data: Seq<u8>,
        size: u64,
    ) -> LobModel {
        LobModel {
            data: Some(data),
            locator: None,
            ora_type,
            csfrm,
            size,
            chunk_size: 0,
            has_context: false,
            is_open: false,
            bfile_name: None,
        }
    }

    pub open spec fn kept_at_server(
        ora_type: OraType,
        csfrm: CsForm,
        locator: Seq<u8>,
        size: u64,
        chunk_size: u32,
        bfile_name: Option<FileName>,
        has_context: bool,
    ) -> LobModel {
        LobModel {
            data: None,
            locator: Some(locator),
            ora_type,
            csfrm,
            size,
            chunk_size,
            has_context,
            is_open: false,
            bfile_name: match bfile_name {
                Some(f) => Some((f.dir_alias@, f.name@)),
                None => None,
            },
        }
    }
}

impl Lob {
    /// An object in memory that belongs to no connection.
    pub fn in_memory(ora_type: OraType, csfrm: CsForm, data: Vec<u8>, size: u64) -> (r: Lob)
        ensures
            r@ == LobModel::kept_in_memory(ora_type, csfrm, data@, size),
    {
        Lob {
            data: Some(data),
            locator: None,
            ora_type,
            csfrm,
            size,
            chunk_size: 0,
            has_context: false,
            is_open: false,
            bfile_name: None,
        }
    }

    /// An object that the server keeps.
    pub fn at_server(
        ora_type: OraType,
        csfrm: CsForm,
        locator: Vec<u8>,
        size: u64,
        chunk_size: u32,
        bfile_name: Option<FileName>,
        has_context: bool,
    ) -> (r: Lob)
        ensures
            r@ == LobModel::kept_at_server(
                ora_type,
                csfrm,
                locator@,
                size,
                chunk_size,
                bfile_name,
                has_context,
            ),
    {
        Lob {
            data: None,
            locator: Some(locator),
            ora_type,
            csfrm,
            size,
            chunk_size,
            has_context,
            is_open: false,
            bfile_name,
        }
    }
}

/// How many items lie before an offset, which counts from one.
pub open spec fn items_before(offset: u64) -> int {
    if offset == 0 {
        0
    } else {
        offset - 1
    }
}

/// What a write puts into an object.
pub enum Written {
    Bytes(Vec<u8>),
    Text(String),
}

impl Written {
    /// The size of what is written: a text counts by its characters.
    pub open spec fn len(self) -> nat {
        match self {
            Written::Bytes(b) => b@.len(),
            Written::Text(t) => t@.len(),
        }
    }

    pub fn units(&self) -> (r: u64)
        ensures
            r == self.len(),
    {
        match self {
            Written::Bytes(b) => b.len() as u64,
            Written::Text(t) => t.as_str().unicode_len() as u64,
        }
    }
}

/// The items from an offset on, at most the given number.
pub open spec fn window<A>(s: Seq<A>, offset: u64, amount: Option<u64>) -> Seq<A> {
    let start = items_before(offset);
    if start >= s.len() {
        Seq::empty()
    } else {
        match amount {
            Some(n) if n < s.len() - start => s.subrange(start, start + n),
            _ => s.skip(start),
        }
    }
}

fn window_bounds(len: usize, offset: u64, amount: Option<u64>) -> (r: (usize, usize))
    ensures
        r.0 <= r.1 <= len,
        items_before(offset) >= len ==> r.0 == r.1,
        items_before(offset) < len ==> r.0 == items_before(offset) && r.1 == match amount {
            Some(n) if n < len - items_before(offset) => items_before(offset) + n,
            _ => len as int,
        },
{
    let start: u64 = if offset == 0 {
        0
    } else {
        offset - 1
    };
    if start >= len as u64 {
        (len, len)
    } else {
        let from = start as usize;
        match amount {
            Some(n) => if n < (len - from) as u64 {
                (from, from + n as usize)
            } else {
                (from, len)
            },
            None => (from, len),
        }
    }
}

/// The bytes from an offset on, at most the given number.
pub fn lob_bytes(data: &Vec<u8>, offset: u64, amount: Option<u64>) -> (r: Vec<u8>)
    ensures
        r@ == window(data@, offset, amount),
{
    let (from, to) = window_bounds(data.len(), offset, amount);
    let mut r: Vec<u8> = Vec::new();
    let mut i: usize = from;
    while i < to
        invariant
            from <= i <= to <= data@.len(),
            r@ == data@.subrange(from as int, i as int),
        decreases to - i,
    {
        r.push(data[i]);
        i = i + 1;
        proof {
            assert(r@ =~= data@.subrange(from as int, i as int));
        }
    }
    proof {
        assert(r@ =~= window(data@, offset, amount));
    }
    r
}

/// The characters from an offset on, at most the given number.
pub fn lob_text(text: &str, offset: u64, amount: Option<u64>) -> (r: String)
    ensures
        r@ == window(text@, offset, amount),
{
    let v = chars_of(text);
    let (from, to) = window_bounds(v.len(), offset, amount);
    let r = slice_text(&v, from, to);
    proof {
        assert(r@ =~= window(text@, offset, amount));
    }
    r
}

/// The contents after bytes were written at a position. What lies between is filled with zeros.
pub open spec fn overwritten(data: Seq<u8>, start: int, bytes: Seq<u8>) -> Seq<u8> {
    let end = start + bytes.len();
    Seq::new(
        (if end > data.len() {
            end
        } else {
            data.len() as int
        }) as nat,
        |i: int|
            if start <= i < end {
                bytes[i - start]
            } else if i < data.len() {
                data[i]
            } else {
                0
            },
    )
}

/// Reading back what was written gives what was written.
pub proof fn law_read_gives_back_write(data: Seq<u8>, offset: u64, bytes: Seq<u8>)
    requires
        bytes.len() <= u64::MAX,
    ensures
        window(
            overwritten(data, items_before(offset), bytes),
            offset,
            Some(bytes.len() as u64),
        ) == bytes,
{
    let start = items_before(offset);
    let after = overwritten(data, start, bytes);
    assert(after.len() >= start + bytes.len());
    if bytes.len() == 0 {
        assert(window(after, offset, Some(0u64)) =~= bytes);
    } else {
        assert(window(after, offset, Some(bytes.len() as u64)) =~= after.subrange(
            start,
            start + bytes.len(),
        ));
        assert(after.subrange(start, start + bytes.len()) =~= bytes);
    }
}

/// A write leaves what lies outside of it as it was.
pub proof fn law_write_keeps_the_rest(data: Seq<u8>, start: int, bytes: Seq<u8>, i: int)
    requires
        0 <= i < data.len(),
        0 <= start,
        i < start || start + bytes.len() <= i,
    ensures
        i < overwritten(data, start, bytes).len(),
        overwritten(data, start, bytes)[i] == data[i],
{
}

/// How a large object is bound.
pub enum LobBind {
    Ready(BindValue),
    /// Read the contents and bind them as bytes.
    Bytes,
    /// Read the contents and bind them as text.
    Text,
}

/// Where the contents of a read come from.
pub enum ReadStep {
    /// The contents in memory, decoded with the locator and cut to the window that was asked for.
    Memory,
    /// There are no contents.
    Empty,
    /// Ask the server.
    Fetch { locator: Vec<u8>, offset: u64, amount: u64 },
}

/// What a write does.
pub enum WriteStep {
    /// Send the bytes, encoded with the locator.
    Send { locator: Vec<u8> },
    /// Change the contents in memory, encoded with the locator if there is one.
    Memory,
}

/// What is left to do for a trim.
pub enum TrimStep {
    Done,
    /// Decode the contents, keep the first characters, encode them again.
    Recode,
    /// Ask the server.
    Send { locator: Vec<u8> },
}

/// What is left to do to free an object.
pub enum FreeStep {
    Done,
    /// Ask the server to free the locator.
    Free { locator: Vec<u8> },
}

pub open spec fn is_binary(t: OraType) -> bool {
    t == OraType::Blob || t == OraType::Bfile
}

/// The error for a file that cannot be reached.
pub open spec fn file_missing() -> FaultView {
    database_view("ORA-22285"@ + ": "@ + "non-existent directory or file for FILEOPEN operation"@)
}

fn copy_bytes(b: &Vec<u8>) -> (r: Vec<u8>)
    ensures
        r@ == b@,
{
    let r = b.clone();
    assert(r@ =~= b@);
    r
}

impl LobModel {
    /// The locator that is sent; none is sent as no bytes.
    pub open spec fn sent_locator(self) -> Seq<u8> {
        match self.locator {
            Some(l) => l,
            None => Seq::empty(),
        }
    }

    /// Where the contents of a read come from.
    pub open spec fn read_from(
        self,
        r: Result<ReadStep, Fault>,
        offset: u64,
        amount: Option<u64>,
    ) -> bool {
        match r {
            Err(f) => self.ora_type == OraType::Bfile && f@ == file_missing(),
            Ok(ReadStep::Memory) => self.ora_type != OraType::Bfile && self.data is Some,
            Ok(ReadStep::Empty) => self.ora_type != OraType::Bfile && self.data is None
                && !self.has_context,
            Ok(ReadStep::Fetch { locator, offset: o, amount: a }) => {
                &&& self.ora_type != OraType::Bfile
                &&& self.data is None
                &&& self.has_context
                &&& locator@ == self.sent_locator()
                &&& o == offset
                &&& a == match amount {
                    Some(n) => n,
                    None => u32::MAX as u64,
                }
            },
        }
    }

    /// How the object is bound.
    pub open spec fn bound_as(self, r: LobBind) -> bool {
        match r {
            LobBind::Ready(BindValue::Lob { ora_type, csfrm, locator }) => ora_type == self.ora_type
                && csfrm == self.csfrm && self.locator == Some(locator@),
            LobBind::Ready(_) => false,
            LobBind::Bytes => self.locator is None && is_binary(self.ora_type),
            LobBind::Text => self.locator is None && !is_binary(self.ora_type),
        }
    }

    /// How a write is done.
    pub open spec fn written_by(self, r: Result<WriteStep, Fault>) -> bool {
        match r {
            Ok(WriteStep::Send { locator }) => self.has_context && locator@ == self.sent_locator(),
            Ok(WriteStep::Memory) => !self.has_context && self.data is Some,
            Err(f) => !self.has_context && self.data is None && f@ == FaultView::NotImplemented(
                "ThinLob.write persistent LOB"@
                    + " is a Rust shim placeholder; M1+ must route this through the oracledb crate"@,
            ),
        }
    }

    pub open spec fn after_sent_write(self, offset: u64, units: nat, locator: Seq<u8>) -> LobModel {
        LobModel {
            locator: Some(locator),
            size: if items_before(offset) + units > self.size {
                (items_before(offset) + units) as u64
            } else {
                self.size
            },
            ..self
        }
    }

    pub open spec fn after_memory_write(self, offset: u64, bytes: Seq<u8>) -> LobModel {
        let data = overwritten(self.data->0, items_before(offset), bytes);
        LobModel {
            data: Some(data),
            size: if is_binary(self.ora_type) {
                data.len() as u64
            } else {
                self.size
            },
            ..self
        }
    }

    pub open spec fn with_locator(self, locator: Seq<u8>) -> LobModel {
        LobModel { locator: Some(locator), ..self }
    }

    pub open spec fn after_text_size(self, text: Seq<char>) -> LobModel {
        LobModel { size: text.len() as u64, ..self }
    }

    /// How the object is shortened.
    pub open spec fn trimmed(self, after: LobModel, r: TrimStep, new_size: u64) -> bool {
        match r {
            TrimStep::Done => {
                &&& self.data is Some && is_binary(self.ora_type) || self.data is None
                    && !self.has_context
                &&& after == (LobModel {
                    data: match self.data {
                        Some(d) => Some(window(d, 1, Some(new_size))),
                        None => None,
                    },
                    size: new_size,
                    ..self
                })
            },
            TrimStep::Recode => self.data is Some && !is_binary(self.ora_type) && after == self,
            TrimStep::Send { locator } => self.data is None && self.has_context && locator@
                == self.sent_locator() && after == self,
        }
    }

    pub open spec fn after_recoded_trim(self, new_size: u64, data: Seq<u8>) -> LobModel {
        LobModel { data: Some(data), size: new_size, ..self }
    }

    pub open spec fn after_sent_trim(self, new_size: u64, locator: Seq<u8>) -> LobModel {
        LobModel { locator: Some(locator), size: new_size, ..self }
    }

    pub open spec fn closed(self, after: LobModel, r: Result<(), Fault>) -> bool {
        match r {
            Ok(_) => self.is_open && after == (LobModel { is_open: false, ..self }),
            Err(f) => !self.is_open && after == self && f@ == database_view(
                "ORA-22289: LOB is not open"@,
            ),
        }
    }

    pub open spec fn opened(self, after: LobModel, r: Result<(), Fault>) -> bool {
        match r {
            Ok(_) => !self.is_open && after == (LobModel { is_open: true, ..self }),
            Err(f) => self.is_open && after == self && f@ == database_view(
                "ORA-22293: LOB already open"@,
            ),
        }
    }

    /// What there is to free.
    pub open spec fn freed(
        self,
        after: LobModel,
        r: FreeStep,
        locator_is_temporary: bool,
        connected: bool,
    ) -> bool {
        let temporary = self.has_context && self.locator is Some && locator_is_temporary;
        match r {
            FreeStep::Free { locator } => temporary && connected && Some(locator@) == self.locator
                && after == self,
            FreeStep::Done => !(temporary && connected) && after == if temporary {
                LobModel { locator: None, ..self }
            } else {
                self
            },
        }
    }

    pub open spec fn after_free(self) -> LobModel {
        LobModel { locator: None, ..self }
    }

    pub open spec fn file_name(self) -> (Seq<char>, Seq<char>) {
        match self.bfile_name {
            Some(f) => f,
            None => (""@, ""@),
        }
    }

    pub open spec fn with_file_name(self, dir_alias: Seq<char>, name: Seq<char>) -> LobModel {
        LobModel { bfile_name: Some((dir_alias, name)), ..self }
    }

    pub open spec fn dbtype_text(self) -> Seq<char> {
        match self.ora_type {
            OraType::Blob => "DB_TYPE_BLOB"@,
            OraType::Bfile => "DB_TYPE_BFILE"@,
            OraType::Clob => if self.csfrm == CsForm::Nchar {
                "DB_TYPE_NCLOB"@
            } else {
                "DB_TYPE_CLOB"@
            },
            _ => "DB_TYPE_CLOB"@,
        }
    }
}

impl Lob {
    pub fn holds_bytes(&self) -> (r: bool)
        ensures
            r == is_binary(self.ora_type),
    {
        self.ora_type == OraType::Blob || self.ora_type == OraType::Bfile
    }

    fn locator_to_send(&self) -> (r: Vec<u8>)
        ensures
            r@ == self@.sent_locator(),
    {
        match &self.locator {
            Some(l) => copy_bytes(l),
            None => {
                let r: Vec<u8> = Vec::new();
                r
            },
        }
    }

    /// Decides where a read gets its contents from. Files are never read.
    pub fn read(&self, offset: u64, amount: Option<u64>) -> (r: Result<ReadStep, Fault>)
        ensures
            self@.read_from(r, offset, amount),
    {
        if self.ora_type == OraType::Bfile {
            return Err(
                dpy_database_error(
                    "ORA-22285",
                    "non-existent directory or file for FILEOPEN operation",
                ),
            );
        }
        if self.data.is_some() {
            return Ok(ReadStep::Memory);
        }
        if !self.has_context {
            return Ok(ReadStep::Empty);
        }
        Ok(
            ReadStep::Fetch {
                locator: self.locator_to_send(),
                offset,
                amount: match amount {
                    Some(n) => n,
                    None => 0xffff_ffff,
                },
            },
        )
    }

    /// How the object is bound: by its locator, or without one by its whole contents.
    pub fn lob_value_to_bind(&self) -> (r: LobBind)
        ensures
            self@.bound_as(r),
    {
        match &self.locator {
            Some(l) => {
                let locator = l.clone();
                proof {
                    assert(locator@ =~= l@);
                }
                LobBind::Ready(
                    BindValue::Lob { ora_type: self.ora_type, csfrm: self.csfrm, locator },
                )
            },
            None => if self.holds_bytes() {
                LobBind::Bytes
            } else {
                LobBind::Text
            },
        }
    }

    /// Takes over the locator that a call gave back.
    pub fn set_locator(&mut self, locator: Vec<u8>)
        ensures
            final(self)@ == old(self)@.with_locator(locator@),
    {
        self.locator = Some(locator);
    }

    /// Decides how a write is done.
    pub fn write(&self) -> (r: Result<WriteStep, Fault>)
        ensures
            self@.written_by(r),
    {
        if self.has_context {
            Ok(WriteStep::Send { locator: self.locator_to_send() })
        } else if self.data.is_some() {
            Ok(WriteStep::Memory)
        } else {
            Err(not_implemented("ThinLob.write persistent LOB"))
        }
    }

    /// After the server took a write.
    pub fn finish_write_sent(&mut self, offset: u64, written: &Written, locator: Vec<u8>)
        requires
            items_before(offset) + written.len() <= u64::MAX,
        ensures
            final(self)@ == old(self)@.after_sent_write(offset, written.len(), locator@),
    {
        let start: u64 = if offset == 0 {
            0
        } else {
            offset - 1
        };
        let units = written.units();
        self.locator = Some(locator);
        if start + units > self.size {
            self.size = start + units;
        }
    }

    /// Writes bytes into the contents in memory. The size of a text is settled by
    /// [`Lob::set_text_size`].
    pub fn write_memory(&mut self, offset: u64, bytes: &Vec<u8>)
        requires
            old(self).data is Some,
            items_before(offset) + bytes@.len() <= usize::MAX,
        ensures
            final(self)@ == old(self)@.after_memory_write(offset, bytes@),
    {
        let start: usize = if offset == 0 {
            0
        } else {
            (offset - 1) as usize
        };
        let end: usize = start + bytes.len();
        let binary = self.holds_bytes();
        if let Some(data) = self.data.take() {
            let total: usize = if end > data.len() {
                end
            } else {
                data.len()
            };
            let ghost target = overwritten(data@, start as int, bytes@);
            let mut out: Vec<u8> = Vec::new();
            let mut i: usize = 0;
            while i < total
                invariant
                    i <= total,
                    total == target.len(),
                    end == start + bytes@.len(),
                    target == overwritten(data@, start as int, bytes@),
                    out@ == target.take(i as int),
                decreases total - i,
            {
                let b: u8 = if start <= i && i < end {
                    bytes[i - start]
                } else if i < data.len() {
                    data[i]
                } else {
                    0
                };
                out.push(b);
                i = i + 1;
                proof {
                    assert(out@ =~= target.take(i as int));
                }
            }
            proof {
                assert(target.take(total as int) =~= target);
            }
            self.data = Some(out);
            if binary {
                self.size = total as u64;
            }
        }
    }

    /// Settles the size of a text in memory after a write: the number of characters in `text`,
    /// which the contents decode to.
    pub fn set_text_size(&mut self, text: &str)
        ensures
            final(self)@ == old(self)@.after_text_size(text@),
    {
        self.size = text.unicode_len() as u64;
    }

    /// Shortens the object, as far as that can be done here. The size is what was asked for.
    pub fn trim(&mut self, new_size: u64) -> (r: TrimStep)
        ensures
            old(self)@.trimmed(final(self)@, r, new_size),
    {
        if self.data.is_some() {
            if self.holds_bytes() {
                if let Some(data) = self.data.take() {
                    self.data = Some(lob_bytes(&data, 1, Some(new_size)));
                    self.size = new_size;
                }
                TrimStep::Done
            } else {
                TrimStep::Recode
            }
        } else if !self.has_context {
            self.size = new_size;
            TrimStep::Done
        } else {
            TrimStep::Send { locator: self.locator_to_send() }
        }
    }

    /// After a text in memory was encoded again.
    pub fn finish_trim_recoded(&mut self, new_size: u64, data: Vec<u8>)
        ensures
            final(self)@ == old(self)@.after_recoded_trim(new_size, data@),
    {
        self.data = Some(data);
        self.size = new_size;
    }

    /// After the server shortened the object.
    pub fn finish_trim_sent(&mut self, new_size: u64, locator: Vec<u8>)
        ensures
            final(self)@ == old(self)@.after_sent_trim(new_size, locator@),
    {
        self.locator = Some(locator);
        self.size = new_size;
    }

    /// Closes the object, which must be open.
    pub fn close(&mut self) -> (r: Result<(), Fault>)
        ensures
            old(self)@.closed(final(self)@, r),
    {
        if !self.is_open {
            return Err(database_error("ORA-22289: LOB is not open"));
        }
        self.is_open = false;
        Ok(())
    }

    /// Opens the object, which must not be open.
    pub fn open(&mut self) -> (r: Result<(), Fault>)
        ensures
            old(self)@.opened(final(self)@, r),
    {
        if self.is_open {
            return Err(database_error("ORA-22293: LOB already open"));
        }
        self.is_open = true;
        Ok(())
    }

    /// Decides whether there is anything to free: a temporary object of an open connection. Where
    /// the connection is closed, the locator goes.
    pub fn free_lob(&mut self, locator_is_temporary: bool, connected: bool) -> (r: FreeStep)
        ensures
            old(self)@.freed(final(self)@, r, locator_is_temporary, connected),
    {
        if !self.has_context || !locator_is_temporary {
            return FreeStep::Done;
        }
        if let Some(l) = &self.locator {
            if connected {
                return FreeStep::Free { locator: copy_bytes(l) };
            }
            self.locator = None;
        }
        FreeStep::Done
    }

    /// After the server freed the locator.
    pub fn finish_free(&mut self)
        ensures
            final(self)@ == old(self)@.after_free(),
    {
        self.locator = None;
    }

    /// Directory and name of a file; both are empty where none was set.
    pub fn get_file_name(&self) -> (r: FileName)
        ensures
            (r.dir_alias@, r.name@) == self@.file_name(),
    {
        match &self.bfile_name {
            Some(f) => FileName { dir_alias: f.dir_alias.clone(), name: f.name.clone() },
            None => FileName { dir_alias: owned(""), name: owned("") },
        }
    }

    pub fn set_file_name(&mut self, dir_alias: String, name: String)
        ensures
            final(self)@ == old(self)@.with_file_name(dir_alias@, name@),
    {
        self.bfile_name = Some(FileName { dir_alias, name });
    }

    /// The error with which the existence of a file is always answered.
    pub fn file_exists(&self) -> (r: Fault)
        ensures
            r@ == file_missing(),
    {
        dpy_database_error("ORA-22285", "non-existent directory or file for FILEOPEN operation")
    }

    /// The name of the database type.
    pub fn dbtype(&self) -> (r: &'static str)
        ensures
            r@ == self@.dbtype_text(),
    {
        match self.ora_type {
            OraType::Blob => "DB_TYPE_BLOB",
            OraType::Bfile => "DB_TYPE_BFILE",
            OraType::Clob => if self.csfrm == CsForm::Nchar {
                "DB_TYPE_NCLOB"
            } else {
                "DB_TYPE_CLOB"
            },
            _ => "DB_TYPE_CLOB",
        }
    }

    pub fn get_max_amount(&self) -> (r: u64)
        ensures
            r == u32::MAX,
    {
        0xffff_ffff
    }
}

/// Cutting to a size and reading everything gives the first items of that size.
pub proof fn law_trim_keeps_the_front<A>(s: Seq<A>, new_size: u64)
    ensures
        window(s, 1, Some(new_size)) == if new_size < s.len() {
            s.take(new_size as int)
        } else {
            s
        },
        window(window(s, 1, Some(new_size)), 1, None) == window(s, 1, Some(new_size)),
{
    let t = window(s, 1, Some(new_size));
    if s.len() == 0 {
        assert(t =~= s);
    } else {
        assert(s.skip(0) =~= s);
        assert(s.subrange(0, if new_size < s.len() {
            new_size as int
        } else {
            0
        }) =~= s.take(if new_size < s.len() {
            new_size as int
        } else {
            0
        }));
    }
    assert(window(t, 1, None) =~= t);
}

/// Consecutive reads of pieces give the whole.
pub proof fn law_reads_in_pieces<A>(s: Seq<A>, n: u64)
    requires
        n < u64::MAX,
    ensures
        window(s, 1, Some(n)) + window(s, (n + 1) as u64, None) == s,
{
    if n == 0 {
        assert(s.skip(0) =~= s);
    }
    assert(window(s, 1, Some(n)) + window(s, (n + 1) as u64, None) =~= s);
}

/// A file is never read, and nothing else is refused. Contents in memory are read there; an object
/// of a connection without them is asked for at the server by its own locator, from the offset and
/// in the amount that were given.
pub proof fn law_read_goes_where_the_contents_are(
    m: LobModel,
    r: Result<ReadStep, Fault>,
    offset: u64,
    amount: Option<u64>,
)
    requires
        m.read_from(r, offset, amount),
    ensures
        r is Err <==> m.ora_type == OraType::Bfile,
        m.ora_type != OraType::Bfile ==> {
            &&& r == Ok::<ReadStep, Fault>(ReadStep::Memory) <==> m.data is Some
            &&& r == Ok::<ReadStep, Fault>(ReadStep::Empty) <==> m.data is None && !m.has_context
        },
        r matches Ok(ReadStep::Fetch { locator, offset: o, amount: a }) ==> {
            &&& o == offset
            &&& amount is Some ==> a == amount->0
            &&& amount is None ==> a == 0xffff_ffff
            &&& m.locator is Some ==> locator@ == m.locator->0
            &&& m.locator is None ==> locator@.len() == 0
        },
{
}

/// The window of a read begins with the item at the offset, which counts from one, and holds as
/// many items as were asked for and are there.
pub proof fn law_window_begins_at_the_offset<A>(
    s: Seq<A>,
    offset: u64,
    amount: Option<u64>,
    i: int,
)
    requires
        1 <= offset,
    ensures
        ({
            let w = window(s, offset, amount);
            &&& 0 <= i < w.len() ==> w[i] == s[offset - 1 + i]
            &&& amount is None && offset <= s.len() ==> w.len() == s.len() - (offset - 1)
            &&& amount is Some && offset - 1 + amount->0 <= s.len() ==> w.len() == amount->0
            &&& amount is Some ==> w.len() <= amount->0
            &&& offset > s.len() ==> w.len() == 0
            &&& amount is Some && offset <= s.len() && offset - 1 + amount->0 > s.len() ==> w.len()
                == s.len() - (offset - 1)
        }),
        window(s, 0, amount) == window(s, 1, amount),
{
}

/// An object with a locator is bound by that, under its own type; one without is bound by its
/// contents, bytes as bytes and text as text.
pub proof fn law_object_is_bound_as_what_it_is(m: LobModel, r: LobBind)
    requires
        m.bound_as(r),
    ensures
        m.locator is Some <==> r is Ready,
        r matches LobBind::Ready(v) ==> (v matches BindValue::Lob { ora_type, csfrm, locator }
            && locator@ == m.locator->0 && ora_type == m.ora_type && csfrm == m.csfrm),
        m.locator is None ==> (r is Bytes <==> m.ora_type == OraType::Blob || m.ora_type
            == OraType::Bfile),
{
}

/// A write goes to the server exactly where the object belongs to a connection, and else to the
/// contents in memory; it fails only without both.
pub proof fn law_write_goes_where_the_contents_are(m: LobModel, r: Result<WriteStep, Fault>)
    requires
        m.written_by(r),
    ensures
        r matches Ok(WriteStep::Send { locator }) ==> m.has_context && (m.locator is Some
            ==> locator@ == m.locator->0),
        m.has_context ==> r is Ok && r->Ok_0 is Send,
        !m.has_context && m.data is Some ==> r == Ok::<WriteStep, Fault>(WriteStep::Memory),
        r is Err <==> !m.has_context && m.data is None,
{
}

/// A write that the server took makes the object just long enough to hold it, never shorter, and
/// leaves the new locator.
pub proof fn law_sent_write_makes_room(m: LobModel, offset: u64, units: nat, locator: Seq<u8>)
    requires
        1 <= offset,
        offset - 1 + units <= u64::MAX,
    ensures
        ({
            let after = m.after_sent_write(offset, units, locator);
            &&& after.size >= m.size && after.size >= offset - 1 + units
            &&& after.size == m.size || after.size == offset - 1 + units
            &&& after.locator == Some(locator)
            &&& after == (LobModel { size: after.size, locator: after.locator, ..m })
        }),
{
}

/// A write into memory is read back from where it was written. A binary object is as large as its
/// contents, and what lies beyond the old contents and before the write is zero.
pub proof fn law_memory_write_is_read_back(m: LobModel, offset: u64, bytes: Seq<u8>, i: int)
    requires
        m.data is Some,
        1 <= offset,
        offset - 1 + bytes.len() <= u64::MAX,
        m.data->0.len() <= u64::MAX,
    ensures
        ({
            let after = m.after_memory_write(offset, bytes);
            &&& after.data is Some
            &&& 0 <= i < bytes.len() ==> after.data->0[offset - 1 + i] == bytes[i]
            &&& m.data->0.len() <= i < offset - 1 ==> after.data->0[i] == 0
            &&& after.data->0.len() >= m.data->0.len()
            &&& after.data->0.len() == m.data->0.len() || after.data->0.len() == offset - 1
                + bytes.len()
            &&& m.ora_type == OraType::Blob ==> after.size == after.data->0.len()
            &&& m.ora_type == OraType::Clob ==> after.size == m.size
            &&& after == (LobModel { size: after.size, data: after.data, ..m })
        }),
{
}

/// A text in memory counts by its characters.
pub proof fn law_text_counts_by_characters(m: LobModel, text: Seq<char>)
    requires
        text.len() <= u64::MAX,
    ensures
        m.after_text_size(text).size == text.len(),
        m.after_text_size(text).data == m.data && m.after_text_size(text).locator == m.locator,
{
}

/// A trim makes the size what was asked for and keeps the front of the contents, whichever way it
/// is done. A text is not cut before it was decoded, and nothing changes before the server answers.
pub proof fn law_trim_makes_the_size(
    m: LobModel,
    after: LobModel,
    r: TrimStep,
    new_size: u64,
    data: Seq<u8>,
    locator: Seq<u8>,
)
    requires
        m.trimmed(after, r, new_size),
    ensures
        r is Done ==> after.size == new_size && after.locator == m.locator,
        r is Done && m.data is Some && new_size <= m.data->0.len() ==> after.data == Some(
            m.data->0.take(new_size as int),
        ),
        r is Recode || r is Send ==> after == m,
        r matches TrimStep::Send { locator: l } ==> m.locator is Some ==> l@ == m.locator->0,
        m.data is Some && m.ora_type == OraType::Blob ==> r is Done,
        m.data is Some && m.ora_type == OraType::Clob ==> r is Recode,
        m.data is None && m.has_context <==> r is Send,
        m.after_recoded_trim(new_size, data).size == new_size,
        m.after_recoded_trim(new_size, data).data == Some(data),
        m.after_sent_trim(new_size, locator).size == new_size,
        m.after_sent_trim(new_size, locator).locator == Some(locator),
        m.after_sent_trim(new_size, locator).data == m.data,
{
    if m.data is Some {
        law_trim_keeps_the_front(m.data->0, new_size);
        if new_size == m.data->0.len() {
            assert(m.data->0.take(new_size as int) =~= m.data->0);
        }
    }
}

/// An object is opened and closed in turn: opening succeeds exactly where it is not open, closing
/// exactly where it is, and one undoes the other.
pub proof fn law_open_and_close_alternate(
    m: LobModel,
    opened: LobModel,
    closed: LobModel,
    o: Result<(), Fault>,
    c: Result<(), Fault>,
)
    requires
        m.opened(opened, o),
        opened.closed(closed, c),
    ensures
        o is Ok <==> !m.is_open,
        opened.is_open,
        c is Ok,
        !closed.is_open,
        o is Ok ==> closed == m,
        forall|again: LobModel, r: Result<(), Fault>| #[trigger]
            opened.opened(again, r) ==> r is Err && again == opened,
        forall|again: LobModel, r: Result<(), Fault>| #[trigger]
            closed.closed(again, r) ==> r is Err && again == closed,
{
}

/// A temporary object is freed at the server once, by its own locator; then there is nothing left
/// to free. Objects that are not temporary, or belong to no connection, are never freed.
pub proof fn law_object_is_freed_once(
    m: LobModel,
    after: LobModel,
    r: FreeStep,
    temporary: bool,
    connected: bool,
    again: LobModel,
    r2: FreeStep,
)
    requires
        m.freed(after, r, temporary, connected),
        m.after_free().freed(again, r2, temporary, connected),
    ensures
        r is Free <==> m.has_context && m.locator is Some && temporary && connected,
        r matches FreeStep::Free { locator } ==> locator@ == m.locator->0,
        r2 is Done,
        m.after_free().locator is None,
        m.after_free().data == m.data && m.after_free().size == m.size,
        m.has_context && temporary && !connected ==> after.locator is None,
        !m.has_context || !temporary ==> after == m,
{
}

/// The name of a file is what was set last.
pub proof fn law_file_name_is_what_was_set(
    m: LobModel,
    dir_alias: Seq<char>,
    name: Seq<char>,
)
    ensures
        m.with_file_name(dir_alias, name).file_name() == (dir_alias, name),
        m.with_file_name(dir_alias, name).data == m.data,
        m.bfile_name is None ==> m.file_name().0.len() == 0 && m.file_name().1.len() == 0,
{
    reveal_strlit("");
}

/// Objects of different types have different type names, and only texts tell by their form.
pub proof fn law_type_names_tell_types_apart(a: LobModel, b: LobModel)
    requires
        a.ora_type == OraType::Blob || a.ora_type == OraType::Clob || a.ora_type == OraType::Bfile,
        b.ora_type == OraType::Blob || b.ora_type == OraType::Clob || b.ora_type == OraType::Bfile,
    ensures
        a.ora_type != b.ora_type ==> a.dbtype_text() != b.dbtype_text(),
        a.ora_type == OraType::Clob && b.ora_type == OraType::Clob ==> (a.dbtype_text()
            == b.dbtype_text() <==> (a.csfrm == CsForm::Nchar) == (b.csfrm == CsForm::Nchar)),
        a.dbtype_text()[8] == 'N' <==> a.ora_type == OraType::Clob && a.csfrm == CsForm::Nchar,
        a.dbtype_text()[9] == 'F' <==> a.ora_type == OraType::Bfile,
        a.dbtype_text()[8] == 'C' <==> a.ora_type == OraType::Clob && a.csfrm != CsForm::Nchar,
{
    reveal_strlit("DB_TYPE_BLOB");
    reveal_strlit("DB_TYPE_BFILE");
    reveal_strlit("DB_TYPE_NCLOB");
    reveal_strlit("DB_TYPE_CLOB");
    assert("DB_TYPE_BLOB"@[8] == 'B' && "DB_TYPE_BLOB"@[9] == 'L');
    assert("DB_TYPE_BFILE"@[8] == 'B' && "DB_TYPE_BFILE"@[9] == 'F');
    assert("DB_TYPE_NCLOB"@[8] == 'N' && "DB_TYPE_NCLOB"@[9] == 'C');
    assert("DB_TYPE_CLOB"@[8] == 'C' && "DB_TYPE_CLOB"@[9] == 'L');
}

/// An object in memory holds what it was made of and belongs to no connection; one at the server
/// has its locator and no contents. Neither is open.
pub proof fn law_new_object_holds_what_was_given(
    ora_type: OraType,
    csfrm: CsForm,
    bytes: Seq<u8>,
    size: u64,
    chunk_size: u32,
    file: FileName,
    has_context: bool,
)
    ensures
        ({
            let m = LobModel::kept_in_memory(ora_type, csfrm, bytes, size);
            &&& m.data == Some(bytes) && m.locator is None && !m.has_context && !m.is_open
            &&& m.ora_type == ora_type && m.csfrm == csfrm && m.size == size
        }),
        ({
            let m = LobModel::kept_at_server(
                ora_type,
                csfrm,
                bytes,
                size,
                chunk_size,
                Some(file),
                has_context,
            );
            &&& m.locator == Some(bytes) && m.data is None && m.has_context == has_context
            &&& m.ora_type == ora_type && m.csfrm == csfrm && m.size == size && !m.is_open
            &&& m.chunk_size == chunk_size && m.file_name() == (file.dir_alias@, file.name@)
        }),
{
}

/// A new locator is the one that is sent from then on.
pub proof fn law_new_locator_is_sent(m: LobModel, locator: Seq<u8>)
    ensures
        m.with_locator(locator).sent_locator() == locator,
        m.with_locator(locator).size == m.size && m.with_locator(locator).data == m.data,
{
}

/// An object that is open is refused to be opened with error 22293, one that is not open to be closed
/// with error 22289, and a file to be read with error 22285.
pub proof fn law_refusals_have_their_numbers(
    m: LobModel,
    opened: LobModel,
    closed: LobModel,
    o: Result<(), Fault>,
    c: Result<(), Fault>,
    read: Result<ReadStep, Fault>,
    offset: u64,
)
    requires
        m.opened(opened, o),
        m.closed(closed, c),
        m.read_from(read, offset, None),
    ensures
        o matches Err(f) ==> (f@ matches FaultView::Database(e) && e.code == Some(22293i64)),
        c matches Err(f) ==> (f@ matches FaultView::Database(e) && e.code == Some(22289i64)),
        read matches Err(f) ==> (f@ matches FaultView::Database(e) && e.code == Some(22285i64)),
{
    reveal_strlit("ORA-");
    reveal_strlit("ORA-22293: LOB already open");
    reveal_strlit("ORA-22289: LOB is not open");
    reveal_strlit("ORA-22285");
    reveal_strlit(": ");
    let a = "ORA-22293: LOB already open"@;
    assert(a.take(4) =~= "ORA-"@);
    lemma_ora_number(a, 2, 2, 2, 9, 3);
    let b = "ORA-22289: LOB is not open"@;
    assert(b.take(4) =~= "ORA-"@);
    lemma_ora_number(b, 2, 2, 2, 8, 9);
    let d = "ORA-22285"@ + ": "@ + "non-existent directory or file for FILEOPEN operation"@;
    assert(d.take(4) =~= "ORA-"@);
    assert(d[4] == '2' && d[5] == '2' && d[6] == '2' && d[7] == '8' && d[8] == '5');
    lemma_ora_number(d, 2, 2, 2, 8, 5);
}

} // verus!
