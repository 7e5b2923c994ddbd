use blazesym::normalize;
use blazesym::symbolize::CodeInfo;
use blazesym::symbolize::FindSymOpts;
use blazesym::symbolize::InlinedFn;
use blazesym::symbolize::Input;
use blazesym::symbolize::IntSym;
use blazesym::symbolize::Reason;
use blazesym::symbolize::SrcLang;
use blazesym::symbolize::Sym;
use blazesym::symbolize::Symbolized;
use blazesym::symbolize::to_symbolized;

#[test]
fn debug_repr() {
    let lang = SrcLang::default();
    assert_ne!(format!("{lang:?}"), "");

    let input = Input::FileOffset(0x1337);
    assert_ne!(format!("{input:?}"), "");

    let code_info = CodeInfo {
        dir: Some("/tmp/some-dir".to_string()),
        file: "test.c".to_string(),
        line: Some(1337),
        column: None,
    };

    let sym = Sym {
        name: "test".to_string(),
        addr: 1337,
        offset: 42,
        size: None,
        code_info: None,
        inlined: vec![InlinedFn {
            name: "inlined_test".to_string(),
            code_info: Some(code_info.clone()),
        }],
    };
    assert_ne!(format!("{sym:?}"), "");

    let symbolized = Symbolized::Sym(sym);
    assert_ne!(format!("{symbolized:?}"), "");
}

#[test]
fn display_repr() {
    assert_eq!(
        Reason::MissingSyms.to_string(),
        "symbolization source has no or no relevant symbols"
    );
}

#[test]
fn reason_conversion() {
    assert_eq!(Reason::from(normalize::Reason::Unmapped), Reason::Unmapped);
    assert_eq!(
        Reason::from(normalize::Reason::MissingComponent),
        Reason::MissingComponent
    );
    assert_eq!(
        Reason::from(normalize::Reason::Unsupported),
        Reason::Unsupported
    );
}

#[test]
fn symbolized_unknown_conversions() {
    let symbolized = Symbolized::Unknown(Reason::UnknownAddr);
    assert_eq!(symbolized.as_sym(), None);
    assert_eq!(symbolized.into_sym(), None);
}

#[test]
fn symbolized_sym_conversions() {
    let sym = Sym {
        name: "f".to_string(),
        addr: 16,
        offset: 2,
        size: Some(4),
        code_info: None,
        inlined: Vec::new(),
    };
    let symbolized = Symbolized::Sym(sym.clone());
    assert_eq!(symbolized.as_sym(), Some(&sym));
    assert_eq!(symbolized.into_sym(), Some(sym));
}

#[test]
fn into_inner_every_variant() {
    assert_eq!(Input::AbsAddr(7u64).into_inner(), 7);
    assert_eq!(Input::VirtOffset(8u64).into_inner(), 8);
    assert_eq!(Input::FileOffset(9u64).into_inner(), 9);
    let addrs = [1u64, 2, 3, 4];
    let input = Input::FileOffset(addrs.as_slice());
    assert_eq!(input.into_inner(), &[1, 2, 3, 4]);
}

#[test]
fn try_to_single_cases() {
    let one = [5u64];
    let two = [5u64, 6];
    assert!(matches!(Input::AbsAddr(one.as_slice()).try_to_single(), Some(Input::AbsAddr(5))));
    assert!(matches!(Input::VirtOffset(one.as_slice()).try_to_single(), Some(Input::VirtOffset(5))));
    assert!(matches!(Input::FileOffset(one.as_slice()).try_to_single(), Some(Input::FileOffset(5))));
    assert!(Input::AbsAddr(two.as_slice()).try_to_single().is_none());
    assert!(Input::FileOffset(&[][..] as &[u64]).try_to_single().is_none());
}

#[test]
fn find_sym_opts_predicates() {
    assert!(!FindSymOpts::Basic.code_info());
    assert!(FindSymOpts::CodeInfo.code_info());
    assert!(FindSymOpts::CodeInfoAndInlined.code_info());
    assert!(!FindSymOpts::Basic.inlined_fns());
    assert!(!FindSymOpts::CodeInfo.inlined_fns());
    assert!(FindSymOpts::CodeInfoAndInlined.inlined_fns());
}

#[test]
fn code_info_to_path() {
    let mut info = CodeInfo {
        dir: None,
        file: "test.c".to_string(),
        line: Some(1),
        column: Some(2),
    };
    assert_eq!(info.to_path(), "test.c");
    info.dir = Some("/tmp/some-dir".to_string());
    assert_eq!(info.to_path(), "/tmp/some-dir/test.c");
    info.file = "/abs/x.c".to_string();
    assert_eq!(info.to_path(), "/abs/x.c");
}

#[test]
fn code_info_to_owned_is_equal() {
    let info = CodeInfo {
        dir: Some("/src".to_string()),
        file: "lib.rs".to_string(),
        line: Some(10),
        column: None,
    };
    assert_eq!(info.to_owned(), info);
    let bare = CodeInfo { dir: None, file: "a.c".to_string(), line: None, column: Some(3) };
    assert_eq!(bare.to_owned(), bare);
}

#[test]
fn reason_messages() {
    assert_eq!(Reason::UnknownAddr.to_string(), "address not found in symbolization source");
    assert_eq!(Reason::Unmapped.to_string(), "absolute address not found in virtual memory map of process");
}

#[test]
fn lift_int_sym_computes_offset() {
    let found = IntSym {
        name: "g".to_string(),
        addr: 0x1330,
        size: Some(8),
        lang: SrcLang::Rust,
        code_info: None,
        inlined: Vec::new(),
    };
    match to_symbolized(0x1337, Ok(found)) {
        Symbolized::Sym(sym) => {
            assert_eq!(sym.name, "g");
            assert_eq!(sym.addr, 0x1330);
            assert_eq!(sym.offset, 7);
            assert_eq!(sym.size, Some(8));
        }
        Symbolized::Unknown(_) => panic!("expected a symbol"),
    }
    assert_eq!(to_symbolized(5, Err(Reason::MissingSyms)), Symbolized::Unknown(Reason::MissingSyms));
}
