//! Laws on the documents that describe the machine.

use vstd::prelude::*;

use crate::description::{
    bytes_of, copied_to_front, piece, piece_fits, register_description, Encoding, Format, Generic,
    MEMORY_MAP_XML, REGISTER_NAMES, TARGET_XML, TARGET_XML_ANNEX,
};

verus! {

/// What a reader gets who asks for `document` in pieces of `length` bytes,
/// from `offset` on, until a piece is empty.
pub open spec fn read_in_pieces(document: Seq<u8>, offset: nat, length: nat) -> Seq<u8>
    decreases document.len() - offset,
{
    let next = piece(document, offset as int, length as int);
    if next.len() == 0 {
        Seq::empty()
    } else {
        next + read_in_pieces(document, offset + next.len(), length)
    }
}

/// Read in pieces of any size, a document arrives whole.
pub proof fn law_pieces_make_the_document(document: Seq<u8>, length: nat)
    requires
        length > 0,
    ensures
        read_in_pieces(document, 0, length) == document,
{
    lemma_pieces(document, 0, length);
    assert(document.skip(0) =~= document);
}

proof fn lemma_pieces(document: Seq<u8>, offset: nat, length: nat)
    requires
        length > 0,
        offset <= document.len(),
    ensures
        read_in_pieces(document, offset, length) == document.skip(offset as int),
    decreases document.len() - offset,
{
    if offset < document.len() {
        let next = piece(document, offset as int, length as int);
        lemma_pieces(document, offset + next.len(), length);
        assert(next + document.skip((offset + next.len()) as int) =~= document.skip(
            offset as int,
        ));
    } else {
        assert(document.skip(offset as int) =~= Seq::empty());
    }
}

/// The registers lie one behind the other, without gaps or overlaps, among
/// the bytes of all registers.
pub proof fn law_registers_are_packed(id: usize)
    requires
        id < 32,
    ensures
        register_description((id + 1) as usize).offset == register_description(id).offset
            + register_description(id).bitsize / 8,
{
}

/// No two registers have the same name.
pub proof fn law_register_names_differ(i: int, j: int)
    requires
        0 <= i < j < 33,
    ensures
        REGISTER_NAMES[i]@ != REGISTER_NAMES[j]@,
{
    reveal_strlit("zero");
    reveal_strlit("ra");
    reveal_strlit("sp");
    reveal_strlit("gp");
    reveal_strlit("tp");
    reveal_strlit("t0");
    reveal_strlit("t1");
    reveal_strlit("t2");
    reveal_strlit("fp");
    reveal_strlit("s1");
    reveal_strlit("a0");
    reveal_strlit("a1");
    reveal_strlit("a2");
    reveal_strlit("a3");
    reveal_strlit("a4");
    reveal_strlit("a5");
    reveal_strlit("a6");
    reveal_strlit("a7");
    reveal_strlit("s2");
    reveal_strlit("s3");
    reveal_strlit("s4");
    reveal_strlit("s5");
    reveal_strlit("s6");
    reveal_strlit("s7");
    reveal_strlit("s8");
    reveal_strlit("s9");
    reveal_strlit("s10");
    reveal_strlit("s11");
    reveal_strlit("t3");
    reveal_strlit("t4");
    reveal_strlit("t5");
    reveal_strlit("t6");
    reveal_strlit("pc");
    let a = REGISTER_NAMES[i]@;
    let b = REGISTER_NAMES[j]@;
    if a == b {
        assert(a.len() == b.len() && a[0] == b[0] && a[1] == b[1] && a[2] == b[2]);
    }
}

/// The registers that play a part are numbers 1, 2, 8 and 32.
pub proof fn law_generic_registers(id: usize)
    requires
        id < 33,
    ensures
        register_description(id).generic == if id == 32 {
            Some(Generic::Pc)
        } else if id == 2 {
            Some(Generic::Sp)
        } else if id == 8 {
            Some(Generic::Fp)
        } else if id == 1 {
            Some(Generic::Ra)
        } else {
            None
        },
{
    lemma_other_name(id, 32);
    lemma_other_name(id, 2);
    lemma_other_name(id, 8);
    lemma_other_name(id, 1);
}

/// Another register has another name.
proof fn lemma_other_name(i: usize, j: usize)
    requires
        i < 33,
        j < 33,
    ensures
        i != j ==> REGISTER_NAMES[i as int]@ != REGISTER_NAMES[j as int]@,
{
    if i < j {
        law_register_names_differ(i as int, j as int);
    } else if j < i {
        law_register_names_differ(j as int, i as int);
    }
}

/// A piece of a document is what stands in the document from its offset on, up
/// to the length that was asked for, and is only shorter where the document
/// ends; behind the end there is nothing.
pub proof fn law_piece(document: Seq<u8>, offset: int, length: int, i: int)
    requires
        0 <= offset,
        0 <= length,
    ensures
        offset + length <= document.len() ==> piece(document, offset, length).len() == length,
        offset <= document.len() <= offset + length ==> piece(document, offset, length).len()
            == document.len() - offset,
        document.len() <= offset ==> piece(document, offset, length).len() == 0,
        0 <= i < piece(document, offset, length).len() ==> piece(document, offset, length)[i]
            == document[offset + i],
{
}

/// Copying to the front of a buffer changes the front, and nothing behind it.
pub proof fn law_copy_to_front(buf: Seq<u8>, bytes: Seq<u8>, i: int)
    requires
        bytes.len() <= buf.len(),
        0 <= i < buf.len(),
    ensures
        copied_to_front(buf, bytes).len() == buf.len(),
        copied_to_front(buf, bytes)[i] == if i < bytes.len() {
            bytes[i]
        } else {
            buf[i]
        },
{
}

/// A piece fits into a buffer that has room for what is asked for, and into a
/// buffer that has room for the rest of the document; behind the end of the
/// document there is always room.
pub proof fn law_piece_fits(document: Seq<u8>, offset: int, length: int, room: int)
    requires
        0 <= offset,
        0 <= length,
        0 <= room,
    ensures
        offset >= document.len() ==> piece_fits(document, offset, length, room),
        offset < document.len() && offset + length <= usize::MAX ==> (piece_fits(
            document,
            offset,
            length,
            room,
        ) <==> length <= room || document.len() - offset <= room),
        offset < document.len() && offset + length > usize::MAX ==> !piece_fits(
            document,
            offset,
            length,
            room,
        ),
{
}

/// A text of plain characters has one byte for each character: its code.
pub proof fn law_bytes_of_plain_text(text: &str, i: int)
    requires
        forall|j: int| 0 <= j < text@.len() ==> '\0' <= #[trigger] text@[j] <= '\x7f',
        0 <= i < text@.len(),
    ensures
        bytes_of(text).len() == text@.len(),
        bytes_of(text)[i] == text@[i] as u8,
{
    assert(vstd::utf8::is_ascii_chars(text@));
    vstd::utf8::is_ascii_chars_encode_utf8(text@);
}

/// Every register has 32 bits, stands behind the ones with smaller numbers,
/// is an unsigned integer shown in hexadecimal, has one number everywhere, no
/// second name, and shares its content with no other register.
pub proof fn law_register_description(id: usize)
    requires
        id < 33,
    ensures
        ({
            let r = register_description(id);
            &&& r.name == REGISTER_NAMES[id as int]
            &&& r.alt_name is None
            &&& r.bitsize == 32
            &&& r.offset == 4 * id
            &&& r.encoding == Encoding::Uint
            &&& r.format == Format::Hex
            &&& r.set@ == "General Purpose Registers"@
            &&& r.gcc == Some(id)
            &&& r.dwarf == Some(id)
            &&& r.container_regs is None
            &&& r.invalidate_regs is None
        }),
{
}

/// The decimal digits of a number below one hundred.
pub open spec fn digits(n: int) -> Seq<char> {
    if n < 10 {
        seq![(n + 48) as char]
    } else {
        seq![(n / 10 + 48) as char, (n % 10 + 48) as char]
    }
}

/// The registers are named by the calling convention: arguments are `a0` to
/// `a7`, temporaries `t0` to `t6`, saved registers `s1` to `s11`, and the
/// others have names of their own.
pub proof fn law_register_names(id: int)
    requires
        0 <= id < 33,
    ensures
        10 <= id < 18 ==> REGISTER_NAMES[id]@ == seq!['a'] + digits(id - 10),
        5 <= id < 8 ==> REGISTER_NAMES[id]@ == seq!['t'] + digits(id - 5),
        28 <= id < 32 ==> REGISTER_NAMES[id]@ == seq!['t'] + digits(id - 25),
        id == 9 ==> REGISTER_NAMES[id]@ == seq!['s'] + digits(1),
        18 <= id < 28 ==> REGISTER_NAMES[id]@ == seq!['s'] + digits(id - 16),
        id == 0 ==> REGISTER_NAMES[id]@ == seq!['z', 'e', 'r', 'o'],
        id == 1 ==> REGISTER_NAMES[id]@ == seq!['r', 'a'],
        id == 2 ==> REGISTER_NAMES[id]@ == seq!['s', 'p'],
        id == 3 ==> REGISTER_NAMES[id]@ == seq!['g', 'p'],
        id == 4 ==> REGISTER_NAMES[id]@ == seq!['t', 'p'],
        id == 8 ==> REGISTER_NAMES[id]@ == seq!['f', 'p'],
        id == 32 ==> REGISTER_NAMES[id]@ == seq!['p', 'c'],
{
    reveal_strlit("zero");
    reveal_strlit("ra");
    reveal_strlit("sp");
    reveal_strlit("gp");
    reveal_strlit("tp");
    reveal_strlit("t0");
    reveal_strlit("t1");
    reveal_strlit("t2");
    reveal_strlit("fp");
    reveal_strlit("s1");
    reveal_strlit("a0");
    reveal_strlit("a1");
    reveal_strlit("a2");
    reveal_strlit("a3");
    reveal_strlit("a4");
    reveal_strlit("a5");
    reveal_strlit("a6");
    reveal_strlit("a7");
    reveal_strlit("s2");
    reveal_strlit("s3");
    reveal_strlit("s4");
    reveal_strlit("s5");
    reveal_strlit("s6");
    reveal_strlit("s7");
    reveal_strlit("s8");
    reveal_strlit("s9");
    reveal_strlit("s10");
    reveal_strlit("s11");
    reveal_strlit("t3");
    reveal_strlit("t4");
    reveal_strlit("t5");
    reveal_strlit("t6");
    reveal_strlit("pc");
}

/// The target description is there under one name only: the ten bytes of
/// `target.xml`.
pub proof fn law_annex_name(annex: Seq<u8>)
    ensures
        annex == bytes_of(TARGET_XML_ANNEX) <==> annex == seq![
            0x74u8,
            0x61u8,
            0x72u8,
            0x67u8,
            0x65u8,
            0x74u8,
            0x2eu8,
            0x78u8,
            0x6du8,
            0x6cu8,
        ],
{
    reveal_strlit("target.xml");
    assert forall|i: int| 0 <= i < 10 implies bytes_of(TARGET_XML_ANNEX)[i]
        == TARGET_XML_ANNEX@[i] as u8 && bytes_of(TARGET_XML_ANNEX).len() == 10 by {
        law_bytes_of_plain_text(TARGET_XML_ANNEX, i);
    }
    assert(bytes_of(TARGET_XML_ANNEX).len() == 10) by {
        law_bytes_of_plain_text(TARGET_XML_ANNEX, 0);
    }
    assert(bytes_of(TARGET_XML_ANNEX) =~= seq![
        0x74u8,
        0x61u8,
        0x72u8,
        0x67u8,
        0x65u8,
        0x74u8,
        0x2eu8,
        0x78u8,
        0x6du8,
        0x6cu8,
    ]);
}

/// The hexadecimal digits of a number, without leading zeros.
pub open spec fn hex_digits(n: nat) -> Seq<char>
    decreases n,
{
    let last = if n % 16 < 10 {
        (n % 16 + 48) as char
    } else {
        (n % 16 + 87) as char
    };
    if n < 16 {
        seq![last]
    } else {
        hex_digits(n / 16).push(last)
    }
}

/// The memory map has one region, which is RAM, begins at the lowest address
/// and is as long as the highest address.
pub proof fn law_memory_map()
    ensures
        MEMORY_MAP_XML@ == "<memory-map>\n  <memory type=\"ram\" start=\"0x"@ + hex_digits(
            u32::MIN as nat,
        ) + "\" length=\"0x"@ + hex_digits(u32::MAX as nat) + "\"/>\n</memory-map>"@,
{
    reveal_strlit(
        r#"<memory-map>
  <memory type="ram" start="0x0" length="0xffffffff"/>
</memory-map>"#,
    );
    reveal_strlit("<memory-map>\n  <memory type=\"ram\" start=\"0x");
    reveal_strlit("\" length=\"0x");
    reveal_strlit("\"/>\n</memory-map>");
    reveal_with_fuel(hex_digits, 9);
    assert(hex_digits(u32::MAX as nat) =~= seq!['f', 'f', 'f', 'f', 'f', 'f', 'f', 'f']);
    assert(hex_digits(u32::MIN as nat) =~= seq!['0']);
}

/// The line of the target description for register `id`: its name, its size,
/// and whether it points to code, points to data, or is a number. The first
/// line gives the number from which the registers are counted.
pub open spec fn register_line(id: int) -> Seq<char> {
    "    <reg name=\""@ + REGISTER_NAMES[id]@ + "\" bitsize=\"32\" type=\""@ + (if id == 1 || id
        == 32 {
        "code_ptr"@
    } else if 2 <= id <= 4 || id == 8 {
        "data_ptr"@
    } else {
        "int"@
    }) + (if id == 0 {
        "\" regnum=\"0\"/>\n"@
    } else {
        "\"/>\n"@
    })
}

/// The lines of the first `n` registers.
pub open spec fn register_lines(n: nat) -> Seq<char>
    decreases n,
{
    if n == 0 {
        Seq::empty()
    } else {
        register_lines((n - 1) as nat) + register_line(n - 1)
    }
}

/// Takes one more line into the part of the target description that was read.
proof fn lemma_next_line(n: nat, from: int, to: int)
    requires
        128 <= from <= to <= TARGET_XML@.len(),
        register_lines(n) == TARGET_XML@.subrange(128, from),
        TARGET_XML@.subrange(from, to) == register_line(n as int),
    ensures
        register_lines(n + 1) == TARGET_XML@.subrange(128, to),
{
    assert(TARGET_XML@.subrange(128, from) + TARGET_XML@.subrange(from, to)
        =~= TARGET_XML@.subrange(128, to));
}

/// The target description lists the registers that the debugger knows, all of
/// them, each once and in the order of their numbers, under the same names.
#[verifier::spinoff_prover]
#[verifier::rlimit(50)]
pub proof fn law_target_lists_registers()
    ensures
        TARGET_XML@ == "<?xml version=\"1.0\"?>\n<target version=\"1.0\">\n"@
            + "  <architecture>riscv:rv32</architecture>\n"@
            + "  <feature name=\"org.gnu.gdb.riscv.cpu\">\n"@
            + register_lines(33) + "  </feature>\n</target>"@,
{
    reveal_strlit(
        r#"<?xml version="1.0"?>
<target version="1.0">
  <architecture>riscv:rv32</architecture>
  <feature name="org.gnu.gdb.riscv.cpu">
    <reg name="zero" bitsize="32" type="int" regnum="0"/>
    <reg name="ra" bitsize="32" type="code_ptr"/>
    <reg name="sp" bitsize="32" type="data_ptr"/>
    <reg name="gp" bitsize="32" type="data_ptr"/>
    <reg name="tp" bitsize="32" type="data_ptr"/>
    <reg name="t0" bitsize="32" type="int"/>
    <reg name="t1" bitsize="32" type="int"/>
    <reg name="t2" bitsize="32" type="int"/>
    <reg name="fp" bitsize="32" type="data_ptr"/>
    <reg name="s1" bitsize="32" type="int"/>
    <reg name="a0" bitsize="32" type="int"/>
    <reg name="a1" bitsize="32" type="int"/>
    <reg name="a2" bitsize="32" type="int"/>
    <reg name="a3" bitsize="32" type="int"/>
    <reg name="a4" bitsize="32" type="int"/>
    <reg name="a5" bitsize="32" type="int"/>
    <reg name="a6" bitsize="32" type="int"/>
    <reg name="a7" bitsize="32" type="int"/>
    <reg name="s2" bitsize="32" type="int"/>
    <reg name="s3" bitsize="32" type="int"/>
    <reg name="s4" bitsize="32" type="int"/>
    <reg name="s5" bitsize="32" type="int"/>
    <reg name="s6" bitsize="32" type="int"/>
    <reg name="s7" bitsize="32" type="int"/>
    <reg name="s8" bitsize="32" type="int"/>
    <reg name="s9" bitsize="32" type="int"/>
    <reg name="s10" bitsize="32" type="int"/>
    <reg name="s11" bitsize="32" type="int"/>
    <reg name="t3" bitsize="32" type="int"/>
    <reg name="t4" bitsize="32" type="int"/>
    <reg name="t5" bitsize="32" type="int"/>
    <reg name="t6" bitsize="32" type="int"/>
    <reg name="pc" bitsize="32" type="code_ptr"/>
  </feature>
</target>"#,
    );
    reveal_strlit("<?xml version=\"1.0\"?>\n<target version=\"1.0\">\n");
    reveal_strlit("  <architecture>riscv:rv32</architecture>\n");
    reveal_strlit("  <feature name=\"org.gnu.gdb.riscv.cpu\">\n");
    reveal_strlit("  </feature>\n</target>");
    reveal_strlit("    <reg name=\"");
    reveal_strlit("\" bitsize=\"32\" type=\"");
    reveal_strlit("code_ptr");
    reveal_strlit("data_ptr");
    reveal_strlit("int");
    reveal_strlit("\" regnum=\"0\"/>\n");
    reveal_strlit("\"/>\n");
    assert(register_lines(0) =~= TARGET_XML@.subrange(128, 128));
    assert(register_lines(1) == TARGET_XML@.subrange(128, 186)) by {
        reveal_strlit("zero");
        assert(TARGET_XML@.subrange(128, 186) =~= register_line(0));
        lemma_next_line(0, 128, 186);
    }
    assert(register_lines(2) == TARGET_XML@.subrange(128, 236)) by {
        reveal_strlit("ra");
        assert(TARGET_XML@.subrange(186, 236) =~= register_line(1));
        lemma_next_line(1, 186, 236);
    }
    assert(register_lines(3) == TARGET_XML@.subrange(128, 286)) by {
        reveal_strlit("sp");
        assert(TARGET_XML@.subrange(236, 286) =~= register_line(2));
        lemma_next_line(2, 236, 286);
    }
    assert(register_lines(4) == TARGET_XML@.subrange(128, 336)) by {
        reveal_strlit("gp");
        assert(TARGET_XML@.subrange(286, 336) =~= register_line(3));
        lemma_next_line(3, 286, 336);
    }
    assert(register_lines(5) == TARGET_XML@.subrange(128, 386)) by {
        reveal_strlit("tp");
        assert(TARGET_XML@.subrange(336, 386) =~= register_line(4));
        lemma_next_line(4, 336, 386);
    }
    assert(register_lines(6) == TARGET_XML@.subrange(128, 431)) by {
        reveal_strlit("t0");
        assert(TARGET_XML@.subrange(386, 431) =~= register_line(5));
        lemma_next_line(5, 386, 431);
    }
    assert(register_lines(7) == TARGET_XML@.subrange(128, 476)) by {
        reveal_strlit("t1");
        assert(TARGET_XML@.subrange(431, 476) =~= register_line(6));
        lemma_next_line(6, 431, 476);
    }
    assert(register_lines(8) == TARGET_XML@.subrange(128, 521)) by {
        reveal_strlit("t2");
        assert(TARGET_XML@.subrange(476, 521) =~= register_line(7));
        lemma_next_line(7, 476, 521);
    }
    assert(register_lines(9) == TARGET_XML@.subrange(128, 571)) by {
        reveal_strlit("fp");
        assert(TARGET_XML@.subrange(521, 571) =~= register_line(8));
        lemma_next_line(8, 521, 571);
    }
    assert(register_lines(10) == TARGET_XML@.subrange(128, 616)) by {
        reveal_strlit("s1");
        assert(TARGET_XML@.subrange(571, 616) =~= register_line(9));
        lemma_next_line(9, 571, 616);
    }
    assert(register_lines(11) == TARGET_XML@.subrange(128, 661)) by {
        reveal_strlit("a0");
        assert(TARGET_XML@.subrange(616, 661) =~= register_line(10));
        lemma_next_line(10, 616, 661);
    }
    assert(register_lines(12) == TARGET_XML@.subrange(128, 706)) by {
        reveal_strlit("a1");
        assert(TARGET_XML@.subrange(661, 706) =~= register_line(11));
        lemma_next_line(11, 661, 706);
    }
    assert(register_lines(13) == TARGET_XML@.subrange(128, 751)) by {
        reveal_strlit("a2");
        assert(TARGET_XML@.subrange(706, 751) =~= register_line(12));
        lemma_next_line(12, 706, 751);
    }
    assert(register_lines(14) == TARGET_XML@.subrange(128, 796)) by {
        reveal_strlit("a3");
        assert(TARGET_XML@.subrange(751, 796) =~= register_line(13));
        lemma_next_line(13, 751, 796);
    }
    assert(register_lines(15) == TARGET_XML@.subrange(128, 841)) by {
        reveal_strlit("a4");
        assert(TARGET_XML@.subrange(796, 841) =~= register_line(14));
        lemma_next_line(14, 796, 841);
    }
    assert(register_lines(16) == TARGET_XML@.subrange(128, 886)) by {
        reveal_strlit("a5");
        assert(TARGET_XML@.subrange(841, 886) =~= register_line(15));
        lemma_next_line(15, 841, 886);
    }
    assert(register_lines(17) == TARGET_XML@.subrange(128, 931)) by {
        reveal_strlit("a6");
        assert(TARGET_XML@.subrange(886, 931) =~= register_line(16));
        lemma_next_line(16, 886, 931);
    }
    assert(register_lines(18) == TARGET_XML@.subrange(128, 976)) by {
        reveal_strlit("a7");
        assert(TARGET_XML@.subrange(931, 976) =~= register_line(17));
        lemma_next_line(17, 931, 976);
    }
    assert(register_lines(19) == TARGET_XML@.subrange(128, 1021)) by {
        reveal_strlit("s2");
        assert(TARGET_XML@.subrange(976, 1021) =~= register_line(18));
        lemma_next_line(18, 976, 1021);
    }
    assert(register_lines(20) == TARGET_XML@.subrange(128, 1066)) by {
        reveal_strlit("s3");
        assert(TARGET_XML@.subrange(1021, 1066) =~= register_line(19));
        lemma_next_line(19, 1021, 1066);
    }
    assert(register_lines(21) == TARGET_XML@.subrange(128, 1111)) by {
        reveal_strlit("s4");
        assert(TARGET_XML@.subrange(1066, 1111) =~= register_line(20));
        lemma_next_line(20, 1066, 1111);
    }
    assert(register_lines(22) == TARGET_XML@.subrange(128, 1156)) by {
        reveal_strlit("s5");
        assert(TARGET_XML@.subrange(1111, 1156) =~= register_line(21));
        lemma_next_line(21, 1111, 1156);
    }
    assert(register_lines(23) == TARGET_XML@.subrange(128, 1201)) by {
        reveal_strlit("s6");
        assert(TARGET_XML@.subrange(1156, 1201) =~= register_line(22));
        lemma_next_line(22, 1156, 1201);
    }
    assert(register_lines(24) == TARGET_XML@.subrange(128, 1246)) by {
        reveal_strlit("s7");
        assert(TARGET_XML@.subrange(1201, 1246) =~= register_line(23));
        lemma_next_line(23, 1201, 1246);
    }
    assert(register_lines(25) == TARGET_XML@.subrange(128, 1291)) by {
        reveal_strlit("s8");
        assert(TARGET_XML@.subrange(1246, 1291) =~= register_line(24));
        lemma_next_line(24, 1246, 1291);
    }
    assert(register_lines(26) == TARGET_XML@.subrange(128, 1336)) by {
        reveal_strlit("s9");
        assert(TARGET_XML@.subrange(1291, 1336) =~= register_line(25));
        lemma_next_line(25, 1291, 1336);
    }
    assert(register_lines(27) == TARGET_XML@.subrange(128, 1382)) by {
        reveal_strlit("s10");
        assert(TARGET_XML@.subrange(1336, 1382) =~= register_line(26));
        lemma_next_line(26, 1336, 1382);
    }
    assert(register_lines(28) == TARGET_XML@.subrange(128, 1428)) by {
        reveal_strlit("s11");
        assert(TARGET_XML@.subrange(1382, 1428) =~= register_line(27));
        lemma_next_line(27, 1382, 1428);
    }
    assert(register_lines(29) == TARGET_XML@.subrange(128, 1473)) by {
        reveal_strlit("t3");
        assert(TARGET_XML@.subrange(1428, 1473) =~= register_line(28));
        lemma_next_line(28, 1428, 1473);
    }
    assert(register_lines(30) == TARGET_XML@.subrange(128, 1518)) by {
        reveal_strlit("t4");
        assert(TARGET_XML@.subrange(1473, 1518) =~= register_line(29));
        lemma_next_line(29, 1473, 1518);
    }
    assert(register_lines(31) == TARGET_XML@.subrange(128, 1563)) by {
        reveal_strlit("t5");
        assert(TARGET_XML@.subrange(1518, 1563) =~= register_line(30));
        lemma_next_line(30, 1518, 1563);
    }
    assert(register_lines(32) == TARGET_XML@.subrange(128, 1608)) by {
        reveal_strlit("t6");
        assert(TARGET_XML@.subrange(1563, 1608) =~= register_line(31));
        lemma_next_line(31, 1563, 1608);
    }
    assert(register_lines(33) == TARGET_XML@.subrange(128, 1658)) by {
        reveal_strlit("pc");
        assert(TARGET_XML@.subrange(1608, 1658) =~= register_line(32));
        lemma_next_line(32, 1608, 1658);
    }
    let header = "<?xml version=\"1.0\"?>\n<target version=\"1.0\">\n"@
        + "  <architecture>riscv:rv32</architecture>\n"@
        + "  <feature name=\"org.gnu.gdb.riscv.cpu\">\n"@;
    let footer = "  </feature>\n</target>"@;
    assert(TARGET_XML@.subrange(0, 128) =~= header);
    assert(TARGET_XML@.subrange(1658, 1680) =~= footer);
    assert(TARGET_XML@.subrange(0, 128) + TARGET_XML@.subrange(128, 1658) + TARGET_XML@.subrange(
        1658,
        1680,
    ) =~= TARGET_XML@);
}

} // verus!
