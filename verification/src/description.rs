//! What the debugger tells about the machine: the documents that describe its
//! memory and its registers.

use vstd::prelude::*;

use crate::executor::Executor;

verus! {

/// The memory map: the memory space is flat, so it is one large RAM region.
pub const MEMORY_MAP_XML: &'static str = r#"<memory-map>
  <memory type="ram" start="0x0" length="0xffffffff"/>
</memory-map>"#;

/// The target description: the architecture and its registers.
pub const TARGET_XML: &'static str = r#"<?xml version="1.0"?>
<target version="1.0">
  <architecture>riscv:rv32</architecture>
  <feature name="org.gnu.gdb.riscv.cpu">
    <reg name="zero" bitsize="32" type="int" regnum="0"/>
    <reg name="ra" bitsize="32" type="code_ptr"/>
    <reg name="sp" bitsize="32" type="data_ptr"/>
    <reg name="gp" bitsize="32" type="data_ptr"/>
    <reg name="tp" bitsize="32" type="data_ptr"/>
    <reg name="t0" bitsize="32" type="int"/>
    <reg name="t1" bitsize="32" type="int"/>
    <reg name="t2" bitsize="32" type="int"/>
    <reg name="fp" bitsize="32" type="data_ptr"/>
    <reg name="s1" bitsize="32" type="int"/>
    <reg name="a0" bitsize="32" type="int"/>
    <reg name="a1" bitsize="32" type="int"/>
    <reg name="a2" bitsize="32" type="int"/>
    <reg name="a3" bitsize="32" type="int"/>
    <reg name="a4" bitsize="32" type="int"/>
    <reg name="a5" bitsize="32" type="int"/>
    <reg name="a6" bitsize="32" type="int"/>
    <reg name="a7" bitsize="32" type="int"/>
    <reg name="s2" bitsize="32" type="int"/>
    <reg name="s3" bitsize="32" type="int"/>
    <reg name="s4" bitsize="32" type="int"/>
    <reg name="s5" bitsize="32" type="int"/>
    <reg name="s6" bitsize="32" type="int"/>
    <reg name="s7" bitsize="32" type="int"/>
    <reg name="s8" bitsize="32" type="int"/>
    <reg name="s9" bitsize="32" type="int"/>
    <reg name="s10" bitsize="32" type="int"/>
    <reg name="s11" bitsize="32" type="int"/>
    <reg name="t3" bitsize="32" type="int"/>
    <reg name="t4" bitsize="32" type="int"/>
    <reg name="t5" bitsize="32" type="int"/>
    <reg name="t6" bitsize="32" type="int"/>
    <reg name="pc" bitsize="32" type="code_ptr"/>
  </feature>
</target>"#;

/// The name of the annex under which the target description is read.
pub const TARGET_XML_ANNEX: &'static str = "target.xml";

/// The bytes of a text.
pub open spec fn bytes_of(text: &str) -> Seq<u8> {
    vstd::string::StringSliceAdditionalSpecFns::spec_bytes(text)
}

/// The piece of `document` that starts at `offset` and is `length` bytes
/// long, or shorter where the document ends before.
pub open spec fn piece(document: Seq<u8>, offset: int, length: int) -> Seq<u8> {
    if offset >= document.len() {
        Seq::empty()
    } else if offset + length <= document.len() {
        document.subrange(offset, offset + length)
    } else {
        document.subrange(offset, document.len() as int)
    }
}

/// What a buffer holds after `bytes` were copied to its beginning.
pub open spec fn copied_to_front(buf: Seq<u8>, bytes: Seq<u8>) -> Seq<u8> {
    bytes + buf.subrange(bytes.len() as int, buf.len() as int)
}

/// Whether a piece of `document` can be read into a buffer of `room` bytes:
/// the piece fits, and its end can be counted.
pub open spec fn piece_fits(document: Seq<u8>, offset: int, length: int, room: int) -> bool {
    offset < document.len() ==> {
        &&& offset + length <= usize::MAX
        &&& piece(document, offset, length).len() <= room
    }
}

/// Copies a piece of `document` to the beginning of `buf`; returns its
/// length.
fn read_piece(document: &[u8], offset: u64, length: usize, buf: &mut [u8]) -> (n: usize)
    requires
        piece_fits(document@, offset as int, length as int, old(buf)@.len() as int),
    ensures
        n == piece(document@, offset as int, length as int).len(),
        final(buf)@ == copied_to_front(
            old(buf)@,
            piece(document@, offset as int, length as int),
        ),
{
    if offset >= document.len() as u64 {
        assert(buf@ =~= copied_to_front(buf@, Seq::empty()));
        return 0;
    }
    let start: usize = offset as usize;
    let end: usize = if start + length < document.len() {
        start + length
    } else {
        document.len()
    };
    let len: usize = end - start;
    let ghost bytes = piece(document@, offset as int, length as int);
    assert(bytes =~= document@.subrange(start as int, end as int));
    let mut i: usize = 0;
    while i < len
        invariant
            i <= len,
            len == bytes.len(),
            len <= buf@.len(),
            buf@.len() == old(buf)@.len(),
            start + len == end <= document@.len(),
            bytes == document@.subrange(start as int, start + len),
            forall|j: int| 0 <= j < i ==> buf@[j] == bytes[j],
            forall|j: int| i <= j < buf@.len() ==> buf@[j] == old(buf)@[j],
        decreases len - i,
    {
        buf[i] = document[start + i];
        i += 1;
    }
    assert(buf@ =~= copied_to_front(old(buf)@, bytes));
    len
}

/// Whether two byte strings are equal.
fn same_bytes(a: &[u8], b: &[u8]) -> (r: bool)
    ensures
        r == (a@ == b@),
{
    if a.len() != b.len() {
        return false;
    }
    let mut i: usize = 0;
    while i < a.len()
        invariant
            i <= a@.len(),
            a@.len() == b@.len(),
            forall|j: int| 0 <= j < i ==> a@[j] == b@[j],
        decreases a@.len() - i,
    {
        if a[i] != b[i] {
            return false;
        }
        i += 1;
    }
    assert(a@ =~= b@);
    true
}

impl Executor {
    /// Reads a piece of the memory map into `buf`.
    pub fn memory_map_xml(&self, offset: u64, length: usize, buf: &mut [u8]) -> (r: Result<
        usize,
        &'static str,
    >)
        requires
            piece_fits(
                bytes_of(MEMORY_MAP_XML),
                offset as int,
                length as int,
                old(buf)@.len() as int,
            ),
        ensures
            r is Ok,
            r->Ok_0 == piece(bytes_of(MEMORY_MAP_XML), offset as int, length as int).len(),
            final(buf)@ == copied_to_front(
                old(buf)@,
                piece(bytes_of(MEMORY_MAP_XML), offset as int, length as int),
            ),
    {
        Ok(read_piece(MEMORY_MAP_XML.as_bytes(), offset, length, buf))
    }

    /// Reads a piece of the target description into `buf`; under another
    /// annex than [`TARGET_XML_ANNEX`] there is nothing to read.
    pub fn target_description_xml(
        &self,
        annex: &[u8],
        offset: u64,
        length: usize,
        buf: &mut [u8],
    ) -> (r: Result<usize, &'static str>)
        requires
            annex@ == bytes_of(TARGET_XML_ANNEX) ==> piece_fits(
                bytes_of(TARGET_XML),
                offset as int,
                length as int,
                old(buf)@.len() as int,
            ),
        ensures
            r is Ok,
            annex@ == bytes_of(TARGET_XML_ANNEX) ==> {
                &&& r->Ok_0 == piece(bytes_of(TARGET_XML), offset as int, length as int).len()
                &&& final(buf)@ == copied_to_front(
                    old(buf)@,
                    piece(bytes_of(TARGET_XML), offset as int, length as int),
                )
            },
            annex@ != bytes_of(TARGET_XML_ANNEX) ==> r->Ok_0 == 0 && final(buf)@ == old(buf)@,
    {
        if !same_bytes(annex, TARGET_XML_ANNEX.as_bytes()) {
            return Ok(0);
        }
        Ok(read_piece(TARGET_XML.as_bytes(), offset, length, buf))
    }
}

/// The names of the registers, in the order of their numbers.
pub const REGISTER_NAMES: [&'static str; 33] = [
    "zero", "ra", "sp", "gp", "tp", "t0", "t1", "t2", "fp", "s1", "a0", "a1", "a2", "a3", "a4",
    "a5", "a6", "a7", "s2", "s3", "s4", "s5", "s6", "s7", "s8", "s9", "s10", "s11", "t3", "t4",
    "t5", "t6", "pc",
];

/// How a debugger interprets the content of a register.
#[derive(Debug, Clone, Copy, PartialEq, Eq, Structural)]
pub enum Encoding {
    /// As an unsigned integer.
    Uint,
}

/// How a debugger displays the content of a register.
#[derive(Debug, Clone, Copy, PartialEq, Eq, Structural)]
pub enum Format {
    /// In hexadecimal.
    Hex,
}

/// The part that a register plays on most processors.
#[derive(Debug, Clone, Copy, PartialEq, Eq, Structural)]
pub enum Generic {
    /// The program counter.
    Pc,
    /// The stack pointer.
    Sp,
    /// The frame pointer.
    Fp,
    /// The return address.
    Ra,
}

/// The description of one register.
#[derive(Debug, Clone, Copy)]
pub struct Register {
    /// The name of the register.
    pub name: &'static str,
    /// Another name of the register.
    pub alt_name: Option<&'static str>,
    /// The size of the register in bits.
    pub bitsize: usize,
    /// The offset of the register among the bytes of all registers.
    pub offset: usize,
    /// How the content of the register is interpreted.
    pub encoding: Encoding,
    /// How the content of the register is displayed.
    pub format: Format,
    /// The name of the set that the register belongs to.
    pub set: &'static str,
    /// The number of the register in the compiler's numbering.
    pub gcc: Option<usize>,
    /// The number of the register in debug information.
    pub dwarf: Option<usize>,
    /// The part that the register plays.
    pub generic: Option<Generic>,
    /// The registers that contain this register.
    pub container_regs: Option<&'static [usize]>,
    /// The registers whose content changes with this register.
    pub invalidate_regs: Option<&'static [usize]>,
}

/// The part that the register of the given name plays, if it plays one.
pub open spec fn generic_of(name: Seq<char>) -> Option<Generic> {
    if name == "pc"@ {
        Some(Generic::Pc)
    } else if name == "sp"@ {
        Some(Generic::Sp)
    } else if name == "fp"@ {
        Some(Generic::Fp)
    } else if name == "ra"@ {
        Some(Generic::Ra)
    } else {
        None
    }
}

/// The description of register `id`.
pub open spec fn register_description(id: usize) -> Register {
    Register {
        name: REGISTER_NAMES[id as int],
        alt_name: None,
        bitsize: 32,
        offset: (id * 4) as usize,
        encoding: Encoding::Uint,
        format: Format::Hex,
        set: "General Purpose Registers",
        gcc: Some(id),
        dwarf: Some(id),
        generic: generic_of(REGISTER_NAMES[id as int]@),
        container_regs: None,
        invalidate_regs: None,
    }
}

/// Finds the part that the register of the given name plays.
fn find_generic(name: &str) -> (r: Option<Generic>)
    ensures
        r == generic_of(name@),
{
    if same_text(name, "pc") {
        Some(Generic::Pc)
    } else if same_text(name, "sp") {
        Some(Generic::Sp)
    } else if same_text(name, "fp") {
        Some(Generic::Fp)
    } else if same_text(name, "ra") {
        Some(Generic::Ra)
    } else {
        None
    }
}

/// Whether two texts are equal.
fn same_text(a: &str, b: &str) -> (r: bool)
    ensures
        r == (a@ == b@),
{
    proof {
        vstd::utf8::encode_utf8_decode_utf8(a@);
        vstd::utf8::encode_utf8_decode_utf8(b@);
    }
    same_bytes(a.as_bytes(), b.as_bytes())
}

impl Executor {
    /// Describes register `reg_id`; `None` once there are no more registers.
    pub fn lldb_register_info(&mut self, reg_id: usize) -> (r: Result<
        Option<Register>,
        &'static str,
    >)
        ensures
            final(self)@ == old(self)@,
            r is Ok,
            reg_id < 33 ==> r->Ok_0 == Some(register_description(reg_id)),
            reg_id >= 33 ==> r->Ok_0 is None,
            r->Ok_0 matches Some(register) ==> register.name == REGISTER_NAMES[reg_id as int]
                && register.bitsize == 32 && register.offset == 4 * reg_id && register.gcc == Some(
                reg_id,
            ) && register.dwarf == Some(reg_id),
    {
        if reg_id >= REGISTER_NAMES.len() {
            return Ok(None);
        }
        let name = REGISTER_NAMES[reg_id];
        Ok(
            Some(
                Register {
                    name,
                    alt_name: None,
                    bitsize: 32,
                    offset: reg_id * 4,
                    encoding: Encoding::Uint,
                    format: Format::Hex,
                    set: "General Purpose Registers",
                    gcc: Some(reg_id),
                    dwarf: Some(reg_id),
                    generic: find_generic(name),
                    container_regs: None,
                    invalidate_regs: None,
                },
            ),
        )
    }
}

} // verus!
