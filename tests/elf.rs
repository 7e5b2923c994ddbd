use blazesym::elf::extract_string;
use blazesym::elf::get_elf_section_name;
use blazesym::elf::parse_symtab;
use blazesym::elf::read_elf_header;
use blazesym::elf::read_elf_section_raw;
use blazesym::elf::read_elf_sections;
use blazesym::elf::sort_by_value;
use blazesym::elf::Elf64Parser;
use blazesym::elf::Elf64_Sym;
use blazesym::elf::SHN_UNDEF;
use blazesym::elf::STT_FUNC;
use blazesym::elf::STT_OBJECT;
use blazesym::error::ErrorKind;
use blazesym::search::search_address_opt_key;
use blazesym::symbolize::lift_answer;
use blazesym::symbolize::symbolize_elf;
use blazesym::symbolize::symbolize_virt_offsets;
use blazesym::symbolize::FindSymOpts;
use blazesym::symbolize::IntSym;
use blazesym::symbolize::SrcLang;
use blazesym::symbolize::Reason;
use blazesym::symbolize::Symbolized;

const SHSTRTAB: &[u8] = b"\0.shstrtab\0.symtab\0.strtab\0.text\0";
const STRTAB: &[u8] = b"\0main\0helper\0alias\0data_obj\0undef_fn\0";

fn put16(b: &mut Vec<u8>, v: u16) {
    b.extend_from_slice(&v.to_le_bytes());
}

fn put32(b: &mut Vec<u8>, v: u32) {
    b.extend_from_slice(&v.to_le_bytes());
}

fn put64(b: &mut Vec<u8>, v: u64) {
    b.extend_from_slice(&v.to_le_bytes());
}

fn name_off(tab: &[u8], name: &str) -> u32 {
    let needle: Vec<u8> = [name.as_bytes(), b"\0"].concat();
    tab.windows(needle.len())
        .position(|w| w == needle.as_slice())
        .unwrap() as u32
}

fn sym(b: &mut Vec<u8>, name: u32, info: u8, shndx: u16, value: u64, size: u64) {
    put32(b, name);
    b.push(info);
    b.push(0);
    put16(b, shndx);
    put64(b, value);
    put64(b, size);
}

fn symtab_bytes() -> Vec<u8> {
    let mut t = Vec::new();
    sym(&mut t, 0, 0, 0, 0, 0);
    sym(&mut t, name_off(STRTAB, "main"), 0x12, 1, 0x1000, 0x20);
    sym(&mut t, name_off(STRTAB, "helper"), 0x12, 1, 0x1100, 0x10);
    sym(&mut t, name_off(STRTAB, "alias"), 0x12, 1, 0x1000, 0x20);
    sym(&mut t, name_off(STRTAB, "data_obj"), 0x11, 1, 0x1050, 0x8);
    sym(&mut t, name_off(STRTAB, "undef_fn"), 0x12, 0, 0x1080, 0);
    t
}

fn shdr(b: &mut Vec<u8>, name: u32, ty: u32, off: u64, size: u64, entsize: u64) {
    put32(b, name);
    put32(b, ty);
    put64(b, 0);
    put64(b, 0);
    put64(b, off);
    put64(b, size);
    put32(b, 0);
    put32(b, 0);
    put64(b, 1);
    put64(b, entsize);
}

/// A small ELF64 image: a null section, .text, .shstrtab, .symtab, .strtab.
fn build_elf_with(symtab: &[u8], strtab: &[u8]) -> Vec<u8> {
    let text = vec![0x90u8; 16];
    let text_off = 64u64;
    let shstr_off = text_off + text.len() as u64;
    let sym_off = shstr_off + SHSTRTAB.len() as u64;
    let str_off = sym_off + symtab.len() as u64;
    let sh_off = str_off + strtab.len() as u64;

    let mut b = Vec::new();
    b.extend_from_slice(&[0x7f, 0x45, 0x4c, 0x46, 0x02, 0x01, 0x01, 0, 0, 0, 0, 0, 0, 0, 0, 0]);
    put16(&mut b, 2);
    put16(&mut b, 0x3e);
    put32(&mut b, 1);
    put64(&mut b, 0x1000);
    put64(&mut b, 0);
    put64(&mut b, sh_off);
    put32(&mut b, 0);
    put16(&mut b, 64);
    put16(&mut b, 56);
    put16(&mut b, 0);
    put16(&mut b, 64);
    put16(&mut b, 5);
    put16(&mut b, 2);
    assert_eq!(b.len(), 64);
    b.extend_from_slice(&text);
    b.extend_from_slice(SHSTRTAB);
    b.extend_from_slice(symtab);
    b.extend_from_slice(strtab);
    shdr(&mut b, 0, 0, 0, 0, 0);
    shdr(&mut b, name_off(SHSTRTAB, ".text"), 1, text_off, text.len() as u64, 0);
    shdr(&mut b, name_off(SHSTRTAB, ".shstrtab"), 3, shstr_off, SHSTRTAB.len() as u64, 0);
    shdr(&mut b, name_off(SHSTRTAB, ".symtab"), 2, sym_off, symtab.len() as u64, 24);
    shdr(&mut b, name_off(SHSTRTAB, ".strtab"), 3, str_off, strtab.len() as u64, 0);
    b
}

fn build_elf() -> Vec<u8> {
    build_elf_with(&symtab_bytes(), STRTAB)
}

/// The first defined function of the sorted table, from its middle on.
fn pick_symtab_addr(parser: &mut Elf64Parser) -> (String, u64) {
    let n = parser.get_num_symbols().unwrap();
    let mut idx = n / 2;
    loop {
        let s = parser.get_symbol(idx).unwrap();
        if s.get_type() == STT_FUNC && !s.is_undef() {
            let name = parser.get_symbol_name(idx).unwrap();
            return (name, s.st_value);
        }
        idx += 1;
    }
}

#[test]
fn test_elf_header_sections() {
    let bin = build_elf();
    let ehdr = read_elf_header(&bin);
    assert!(ehdr.is_ok());
    let ehdr = ehdr.unwrap();
    assert_eq!(
        ehdr.e_ident,
        vec![0x7f, 0x45, 0x4c, 0x46, 0x02, 0x01, 0x01, 0x00, 0x00, 0x00, 0x00, 0x00, 0x00, 0x00, 0x00, 0x00]
    );
    assert_eq!(ehdr.e_version, 0x1);
    assert_eq!(ehdr.e_shentsize as usize, 64);

    let shdrs = read_elf_sections(&bin, &ehdr);
    assert!(shdrs.is_ok());
    let shdrs = shdrs.unwrap();
    let shstrndx = ehdr.e_shstrndx as usize;

    let shstrtab_sec = &shdrs[shstrndx];
    let shstrtab = read_elf_section_raw(&bin, shstrtab_sec);
    assert!(shstrtab.is_ok());
    let shstrtab = shstrtab.unwrap();

    let sec_name = get_elf_section_name(shstrtab_sec, &shstrtab);
    assert!(sec_name.is_some());
    assert_eq!(sec_name.unwrap(), ".shstrtab");
}

#[test]
fn test_elf64_parser() {
    let mut parser = Elf64Parser::new(build_elf());
    assert!(parser.find_section(".shstrtab").is_ok());
}

#[test]
fn test_elf64_symtab() {
    let mut parser = Elf64Parser::new(build_elf());
    assert!(parser.find_section(".shstrtab").is_ok());

    let (sym_name, addr) = pick_symtab_addr(&mut parser);

    let sym_r = parser.find_symbol(addr, STT_FUNC);
    assert!(sym_r.is_ok());
    let (sym_name_ret, addr_ret) = sym_r.unwrap();
    assert_eq!(addr_ret, addr);
    assert_eq!(sym_name_ret, sym_name);
}

#[test]
fn self_open_finds_shstrtab_by_name() {
    let mut parser = Elf64Parser::new(build_elf());
    let i = parser.find_section(".shstrtab").unwrap();
    assert_eq!(i, 2);
    assert_eq!(parser.get_section_name(i).unwrap(), ".shstrtab");
    assert_eq!(parser.find_section(".strtab").unwrap(), 4);
    assert_eq!(parser.find_section(".nothing").unwrap_err().kind, ErrorKind::NotFound);
}

#[test]
fn section_names_and_sizes() {
    let mut parser = Elf64Parser::new(build_elf());
    assert_eq!(parser.get_num_sections().unwrap(), 5);
    assert_eq!(parser.get_section_name(0).unwrap(), "");
    assert_eq!(parser.get_section_name(1).unwrap(), ".text");
    assert_eq!(parser.get_section_size(1).unwrap(), 16);
    assert_eq!(parser.get_section_size(3).unwrap(), 6 * 24);
    assert_eq!(parser.read_section_raw(4).unwrap(), STRTAB.to_vec());
    assert_eq!(parser.get_section_name(5).unwrap_err().kind, ErrorKind::InvalidInput);
    assert_eq!(parser.get_section_size(9).unwrap_err().kind, ErrorKind::InvalidInput);
}

#[test]
fn sorted_symbols_are_ordered_and_stable() {
    let mut parser = Elf64Parser::new(build_elf());
    assert_eq!(parser.get_num_symbols().unwrap(), 6);
    let all = parser.get_all_symbols().unwrap();
    let values: Vec<u64> = all.iter().map(|s| s.st_value).collect();
    assert_eq!(values, vec![0, 0x1000, 0x1000, 0x1050, 0x1080, 0x1100]);
    // main precedes alias in the file, and keeps doing so among equal values.
    assert_eq!(parser.get_symbol_name(1).unwrap(), "main");
    assert_eq!(parser.get_symbol_name(2).unwrap(), "alias");
    assert_eq!(parser.get_symbol_origin(2).unwrap().st_value, 0x1100);
    assert_eq!(parser.get_symbol(6).unwrap_err().kind, ErrorKind::InvalidInput);
    assert_eq!(parser.get_symbol_origin(6).unwrap_err().kind, ErrorKind::InvalidInput);
}

#[test]
fn find_symbol_exact_address_returns_last_alias() {
    let mut parser = Elf64Parser::new(build_elf());
    assert_eq!(parser.find_symbol(0x1000, STT_FUNC).unwrap(), ("alias".to_string(), 0x1000));
    assert_eq!(parser.find_symbol(0x1100, STT_FUNC).unwrap(), ("helper".to_string(), 0x1100));
}

#[test]
fn find_symbol_offset_into_function() {
    let mut parser = Elf64Parser::new(build_elf());
    assert_eq!(parser.find_symbol(0x1001, STT_FUNC).unwrap(), ("alias".to_string(), 0x1000));
    // An object and an undefined function in between are skipped.
    assert_eq!(parser.find_symbol(0x10ff, STT_FUNC).unwrap(), ("alias".to_string(), 0x1000));
    assert_eq!(parser.find_symbol(0x1060, STT_OBJECT).unwrap(), ("data_obj".to_string(), 0x1050));
    match symbolize_elf(&mut parser, 0x1001).unwrap() {
        Symbolized::Sym(sym) => {
            assert_eq!(sym.name, "alias");
            assert_eq!(sym.addr, 0x1000);
            assert_eq!(sym.offset, 1);
        }
        Symbolized::Unknown(_) => panic!("expected a symbol"),
    }
}

#[test]
fn find_symbol_miss() {
    let mut parser = Elf64Parser::new(build_elf());
    assert_eq!(parser.find_symbol(0, STT_FUNC).unwrap_err().kind, ErrorKind::NotFound);
    assert_eq!(parser.find_symbol(0xfff, STT_FUNC).unwrap_err().kind, ErrorKind::NotFound);
    assert_eq!(
        symbolize_elf(&mut parser, 0).unwrap(),
        Symbolized::Unknown(Reason::UnknownAddr)
    );
}

#[test]
fn offset_seek_out_of_range() {
    let mut parser = Elf64Parser::new(build_elf());
    let size = parser.get_section_size(1).unwrap();
    assert_eq!(parser.section_offset_seek(1, size).unwrap_err().kind, ErrorKind::InvalidInput);
    parser.section_offset_seek(1, size - 1).unwrap();
    let mut buf = [0u8; 1];
    parser.read_raw(&mut buf).unwrap();
    assert_eq!(buf, [0x90]);
}

#[test]
fn seek_and_read_raw() {
    let mut parser = Elf64Parser::new(build_elf());
    parser.section_seek(2).unwrap();
    let mut buf = [0u8; 10];
    parser.read_raw(&mut buf).unwrap();
    assert_eq!(&buf, b"\0.shstrtab");
    let mut rest = [0u8; 8];
    parser.read_raw(&mut rest).unwrap();
    assert_eq!(&rest, b"\0.symtab");
    let mut huge = vec![0u8; 100_000];
    assert_eq!(parser.read_raw(&mut huge).unwrap_err().kind, ErrorKind::UnexpectedEof);
}

#[test]
fn repeated_lookups_agree() {
    let mut parser = Elf64Parser::new(build_elf());
    assert!(parser.ensure_symtab().is_ok());
    assert!(parser.ensure_symtab().is_ok());
    let first = parser.find_symbol(0x1105, STT_FUNC).unwrap();
    let second = parser.find_symbol(0x1105, STT_FUNC).unwrap();
    assert_eq!(first, second);
    assert_eq!(parser.get_section_name(3).unwrap(), parser.get_section_name(3).unwrap());
}

#[test]
fn header_errors() {
    let short = vec![0x7f, 0x45, 0x4c, 0x46];
    assert_eq!(read_elf_header(&short).unwrap_err().kind, ErrorKind::UnexpectedEof);
    let mut bad = build_elf();
    bad[4] = 1;
    assert_eq!(read_elf_header(&bad).unwrap_err().kind, ErrorKind::InvalidData);
    let mut parser = Elf64Parser::new(bad);
    assert_eq!(parser.get_num_sections().unwrap_err().kind, ErrorKind::InvalidData);
}

#[test]
fn truncated_section_table() {
    let mut bin = build_elf();
    bin.truncate(bin.len() - 10);
    let mut parser = Elf64Parser::new(bin);
    assert_eq!(parser.get_num_sections().unwrap(), 5);
    assert_eq!(parser.get_section_size(1).unwrap_err().kind, ErrorKind::UnexpectedEof);
}

#[test]
fn symtab_size_must_divide() {
    let mut t = symtab_bytes();
    t.push(0);
    let mut parser = Elf64Parser::new(build_elf_with(&t, STRTAB));
    assert_eq!(parser.get_num_symbols().unwrap_err().kind, ErrorKind::InvalidData);
    assert_eq!(parse_symtab(&t).unwrap_err().kind, ErrorKind::InvalidData);
}

#[test]
fn invalid_symbol_name_is_invalid_data() {
    let mut t = Vec::new();
    sym(&mut t, 0, 0, 0, 0, 0);
    sym(&mut t, 1, 0x12, 1, 0x2000, 4);
    sym(&mut t, 500, 0x12, 1, 0x3000, 4);
    let strtab: &[u8] = b"\0\xff\xfe\0";
    let mut parser = Elf64Parser::new(build_elf_with(&t, strtab));
    assert_eq!(parser.find_symbol(0x2000, STT_FUNC).unwrap_err().kind, ErrorKind::InvalidData);
    assert_eq!(parser.find_symbol(0x3000, STT_FUNC).unwrap_err().kind, ErrorKind::InvalidData);
    assert_eq!(parser.get_symbol_name(1).unwrap_err().kind, ErrorKind::InvalidData);
}

#[test]
fn extract_string_cases() {
    let tab = b"\0abc\0d\xc3\xa9f\0\xff\0tail";
    assert_eq!(extract_string(tab, 0), Some(String::new()));
    assert_eq!(extract_string(tab, 1), Some("abc".to_string()));
    assert_eq!(extract_string(tab, 2), Some("bc".to_string()));
    assert_eq!(extract_string(tab, 5), Some("d\u{e9}f".to_string()));
    assert_eq!(extract_string(tab, 10), None);
    assert_eq!(extract_string(tab, 12), None);
    assert_eq!(extract_string(tab, 100), None);
}

#[test]
fn search_skips_filtered_entries() {
    let mk = |info: u8, shndx: u16, value: u64| Elf64_Sym {
        st_name: 0,
        st_info: info,
        st_other: 0,
        st_shndx: shndx,
        st_value: value,
        st_size: 0,
    };
    let syms = vec![
        mk(0x12, 1, 10),
        mk(0x11, 1, 20),
        mk(0x12, SHN_UNDEF, 30),
        mk(0x11, 1, 40),
    ];
    assert_eq!(search_address_opt_key(&syms, 5, STT_FUNC), None);
    assert_eq!(search_address_opt_key(&syms, 10, STT_FUNC), Some(0));
    assert_eq!(search_address_opt_key(&syms, 45, STT_FUNC), Some(0));
    assert_eq!(search_address_opt_key(&syms, 45, STT_OBJECT), Some(3));
    assert_eq!(search_address_opt_key(&syms, 39, STT_OBJECT), Some(1));
    assert_eq!(search_address_opt_key(&[], 39, STT_OBJECT), None);
}

#[test]
fn sort_is_stable() {
    let mk = |name: u32, value: u64| Elf64_Sym {
        st_name: name,
        st_info: 0x12,
        st_other: 0,
        st_shndx: 1,
        st_value: value,
        st_size: 0,
    };
    let syms = vec![mk(0, 5), mk(1, 3), mk(2, 5), mk(3, 1), mk(4, 3)];
    let sorted = sort_by_value(&syms);
    let names: Vec<u32> = sorted.iter().map(|s| s.st_name).collect();
    assert_eq!(names, vec![3, 1, 4, 0, 2]);
}

#[test]
fn symbol_type_and_undef() {
    let s = Elf64_Sym { st_name: 0, st_info: 0x12, st_other: 0, st_shndx: 0, st_value: 0, st_size: 0 };
    assert_eq!(s.get_type(), STT_FUNC);
    assert!(s.is_undef());
}

#[test]
fn big_endian_header_is_refused() {
    let mut bin = build_elf();
    bin[5] = 2;
    assert_eq!(read_elf_header(&bin).unwrap_err().kind, ErrorKind::InvalidData);
}

#[test]
fn fresh_parser_symbol_getters() {
    let mut parser = Elf64Parser::new(build_elf());
    assert_eq!(parser.get_symbol(5).unwrap().st_value, 0x1100);
    let mut parser = Elf64Parser::new(build_elf());
    assert_eq!(parser.get_symbol_name(3).unwrap(), "data_obj");
}

#[test]
fn symbolize_many_offsets() {
    let mut parser = Elf64Parser::new(build_elf());
    let out = symbolize_virt_offsets(&mut parser, &[], &FindSymOpts::Basic).unwrap();
    assert!(out.is_empty());
    let out = symbolize_virt_offsets(&mut parser, &[0x1003, 0x10, 0x1100], &FindSymOpts::CodeInfo).unwrap();
    assert_eq!(out.len(), 3);
    let first = out[0].as_sym().unwrap();
    assert_eq!((first.name.as_str(), first.addr, first.offset), ("alias", 0x1000, 3));
    assert_eq!(out[1], Symbolized::Unknown(Reason::UnknownAddr));
    let third = out[2].as_sym().unwrap();
    assert_eq!((third.name.as_str(), third.addr, third.offset), ("helper", 0x1100, 0));
}

#[test]
fn lift_answer_cases() {
    let found = IntSym {
        name: "h".to_string(),
        addr: 0x20,
        size: None,
        lang: SrcLang::Cpp,
        code_info: None,
        inlined: Vec::new(),
    };
    let item = lift_answer(0x25, Ok(found));
    assert_eq!(item.as_sym().unwrap().offset, 5);
    assert_eq!(lift_answer(1, Err(Reason::Unsupported)), Symbolized::Unknown(Reason::Unsupported));
}

#[test]
fn offset_seek_then_read_section_bytes() {
    let mut parser = Elf64Parser::new(build_elf());
    parser.section_offset_seek(4, 1).unwrap();
    let mut buf = [0u8; 4];
    parser.read_raw(&mut buf).unwrap();
    assert_eq!(&buf, b"main");
}
