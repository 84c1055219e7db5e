//! The documents that describe the machine.

use sp1_debugger::description::{
    Encoding, Format, Generic, MEMORY_MAP_XML, REGISTER_NAMES, TARGET_XML,
};
use sp1_debugger::executor::Executor;
use sp1_debugger::state::{ExecutionState, Memory};

fn executor() -> Executor {
    Executor {
        state: ExecutionState { pc: 0, clk: 0, current_shard: 1, memory: Memory::new() },
        debugger_state: None,
    }
}

#[test]
fn the_memory_map_is_one_region() {
    assert_eq!(
        MEMORY_MAP_XML,
        "<memory-map>\n  <memory type=\"ram\" start=\"0x0\" length=\"0xffffffff\"/>\n</memory-map>"
    );
    let mut buf = [0u8; 256];
    let n = executor().memory_map_xml(0, 256, &mut buf).unwrap();
    assert_eq!(n, MEMORY_MAP_XML.len());
    assert_eq!(&buf[..n], MEMORY_MAP_XML.as_bytes());
    assert!(buf[n..].iter().all(|b| *b == 0));
}

#[test]
fn the_memory_map_in_pieces() {
    let executor = executor();
    let mut whole = Vec::new();
    loop {
        let mut buf = [0u8; 7];
        let n = executor.memory_map_xml(whole.len() as u64, 7, &mut buf).unwrap();
        if n == 0 {
            break;
        }
        whole.extend_from_slice(&buf[..n]);
    }
    assert_eq!(whole, MEMORY_MAP_XML.as_bytes());
}

#[test]
fn nothing_is_read_behind_the_end() {
    let executor = executor();
    let mut buf = [5u8; 4];
    let len = MEMORY_MAP_XML.len() as u64;
    assert_eq!(executor.memory_map_xml(len, 4, &mut buf), Ok(0));
    assert_eq!(executor.memory_map_xml(u64::MAX, usize::MAX, &mut buf), Ok(0));
    assert_eq!(buf, [5; 4]);
    assert_eq!(executor.memory_map_xml(len - 1, 4, &mut buf), Ok(1));
    assert_eq!(buf, [b'>', 5, 5, 5]);
    assert_eq!(executor.memory_map_xml(0, 0, &mut buf), Ok(0));
}

#[test]
fn the_target_description_has_its_annex() {
    let executor = executor();
    let mut buf = vec![0u8; 4096];
    assert_eq!(executor.target_description_xml(b"other.xml", 0, 4096, &mut buf), Ok(0));
    assert_eq!(executor.target_description_xml(b"", 0, 4096, &mut buf), Ok(0));
    assert_eq!(executor.target_description_xml(b"target.xmk", 0, 4096, &mut buf), Ok(0));
    assert!(buf.iter().all(|b| *b == 0));
    let n = executor.target_description_xml(b"target.xml", 0, 4096, &mut buf).unwrap();
    assert_eq!(&buf[..n], TARGET_XML.as_bytes());
    let n = executor.target_description_xml(b"target.xml", 2, 3, &mut buf).unwrap();
    assert_eq!(&buf[..n], b"xml");
}

#[test]
fn the_target_description_lists_the_registers() {
    assert!(TARGET_XML.starts_with("<?xml version=\"1.0\"?>\n<target version=\"1.0\">\n"));
    assert!(TARGET_XML.contains("<architecture>riscv:rv32</architecture>"));
    assert!(TARGET_XML.ends_with("  </feature>\n</target>"));
    let mut names = Vec::new();
    for line in TARGET_XML.lines() {
        if let Some(rest) = line.trim().strip_prefix("<reg name=\"") {
            assert!(rest.contains("bitsize=\"32\""));
            names.push(rest.split('"').next().unwrap());
        }
    }
    assert_eq!(names, REGISTER_NAMES);
}

#[test]
fn register_descriptions() {
    let mut executor = executor();
    for id in 0..33 {
        let register = executor.lldb_register_info(id).unwrap().unwrap();
        assert_eq!(register.name, REGISTER_NAMES[id]);
        assert_eq!(register.alt_name, None);
        assert_eq!(register.bitsize, 32);
        assert_eq!(register.offset, 4 * id);
        assert_eq!(register.encoding, Encoding::Uint);
        assert_eq!(register.format, Format::Hex);
        assert_eq!(register.set, "General Purpose Registers");
        assert_eq!(register.gcc, Some(id));
        assert_eq!(register.dwarf, Some(id));
        assert_eq!(register.container_regs, None);
        assert_eq!(register.invalidate_regs, None);
        let generic = match id {
            1 => Some(Generic::Ra),
            2 => Some(Generic::Sp),
            8 => Some(Generic::Fp),
            32 => Some(Generic::Pc),
            _ => None,
        };
        assert_eq!(register.generic, generic);
    }
    assert_eq!(executor.lldb_register_info(0).unwrap().unwrap().name, "zero");
    assert_eq!(executor.lldb_register_info(27).unwrap().unwrap().name, "s11");
    assert!(executor.lldb_register_info(33).unwrap().is_none());
    assert!(executor.lldb_register_info(usize::MAX).unwrap().is_none());
}

#[test]
fn register_names_differ() {
    for i in 0..33 {
        for j in 0..i {
            assert_ne!(REGISTER_NAMES[i], REGISTER_NAMES[j]);
        }
    }
}
