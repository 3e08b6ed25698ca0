use atlas::text::{decimal_string, hex_digit, is_whitespace, str_eq};
use atlas::{ErrorKind, MemoryRegion, RawSymbol, Symbol, SymbolLang, SymbolType};

const TAGS: [(char, SymbolType); 18] = [
    ('A', SymbolType::Absolute),
    ('B', SymbolType::BssSection),
    ('C', SymbolType::Common),
    ('D', SymbolType::DataSection),
    ('G', SymbolType::Global),
    ('i', SymbolType::IndirectFunction),
    ('I', SymbolType::Indirect),
    ('N', SymbolType::Debug),
    ('R', SymbolType::ReadOnlyDataSection),
    ('p', SymbolType::StackUnwindSection),
    ('S', SymbolType::UninitializedOrZeroInitialized),
    ('T', SymbolType::TextSection),
    ('U', SymbolType::Undefined),
    ('u', SymbolType::UniqueGlobal),
    ('V', SymbolType::TaggedWeak),
    ('W', SymbolType::Weak),
    ('-', SymbolType::Stabs),
    ('?', SymbolType::Unknown),
];

fn render(raw: &RawSymbol) -> String {
    let tag = TAGS
        .iter()
        .find(|(_, t)| *t == raw.sym_type)
        .map(|(c, _)| *c)
        .unwrap();
    format!("{:08x} {:08x} {} {}", raw.addr, raw.size, tag, raw.name)
}

#[test]
fn parse_scenario() {
    let raw = RawSymbol::from_str("00008700 00000064 T net_if_up").unwrap();
    assert_eq!(raw.addr, 0x00008700);
    assert_eq!(raw.size, 0x00000064);
    assert_eq!(raw.sym_type, SymbolType::TextSection);
    assert_eq!(raw.name, "net_if_up");
    let sym = Symbol::from_lines(
        "00008700 00000064 T net_if_up",
        "00008700 00000064 T net_if_up",
    )
    .unwrap();
    assert_eq!(sym.mangled, "net_if_up");
    assert_eq!(sym.demangled, "net_if_up");
    assert_eq!(sym.lang, SymbolLang::Any);
}

#[test]
fn parse_two_character_tag() {
    let err = RawSymbol::from_str("00008700 00000064 Tt net_if_up").unwrap_err();
    assert_eq!(err.kind(), ErrorKind::InvalidSymbol);
    assert!(err.into_cause().is_none());
}

#[test]
fn parse_every_tag() {
    for (tag, sym_type) in TAGS {
        let line = format!("0000000a 000000ff {} name", tag);
        let raw = RawSymbol::from_str(&line).unwrap();
        assert_eq!(raw.sym_type, sym_type);
        assert_eq!(SymbolType::from_tag(tag), Some(sym_type));
        assert_eq!(SymbolType::from_str(&tag.to_string()).unwrap(), sym_type);
    }
    for (tag, sym_type) in [
        ('b', SymbolType::BssSection),
        ('c', SymbolType::Common),
        ('d', SymbolType::DataSection),
        ('g', SymbolType::Global),
        ('n', SymbolType::ReadOnlyDataSection),
        ('r', SymbolType::ReadOnlyDataSection),
        ('s', SymbolType::UninitializedOrZeroInitialized),
        ('t', SymbolType::TextSection),
        ('v', SymbolType::TaggedWeak),
        ('w', SymbolType::Weak),
    ] {
        assert_eq!(SymbolType::from_tag(tag), Some(sym_type));
    }
    for tag in ['a', 'X', 'P', '0', ' ', '\u{e9}', 'x'] {
        assert_eq!(SymbolType::from_tag(tag), None);
    }
}

#[test]
fn parse_roundtrip() {
    for line in [
        "00008700 00000064 T net_if_up",
        "   0002EB78\t00000022   t   <cstr_core::CString as core::ops::drop::Drop>::drop  \n",
        "ffffffff FFFFFFFF ? a",
        "00000000 00000000 - x y\tz",
        "\u{a0}0000000a\u{2003}0000000b\u{3000}n\u{85}caf\u{e9} \u{1f980}\u{2028}",
    ] {
        let raw = RawSymbol::from_str(line).unwrap();
        let again = RawSymbol::from_str(&render(&raw)).unwrap();
        assert_eq!(again, raw);
    }
    let raw = RawSymbol::from_str("ffffffff FFFFFFFF ? a").unwrap();
    assert_eq!(raw.addr, u32::MAX);
    assert_eq!(raw.size, u32::MAX);
    let raw = RawSymbol::from_str("\u{a0}0000000a\u{2003}0000000b\u{3000}n\u{85}caf\u{e9} \u{1f980}\u{2028}")
        .unwrap();
    assert_eq!(raw.addr, 10);
    assert_eq!(raw.size, 11);
    assert_eq!(raw.sym_type, SymbolType::ReadOnlyDataSection);
    assert_eq!(raw.name, "caf\u{e9} \u{1f980}");
}

#[test]
fn parse_canonical_lines() {
    for (tag, sym_type) in TAGS {
        for (addr, size) in [(0u32, 0u32), (0x1234_abcd, 0xfedc_ba98), (u32::MAX, 1)] {
            let raw = RawSymbol::new(addr, size, sym_type, String::from("some name<T>"));
            let line = format!("{:08x} {:08x} {} some name<T>", addr, size, tag);
            assert_eq!(RawSymbol::from_str(&line).unwrap(), raw);
        }
    }
}

#[test]
fn parse_rejects_malformed_lines() {
    for line in [
        "",
        " \t\n",
        "mulvdi3.o:",
        "         U memcpy",
        "00008700",
        "00008700 00000064",
        "00008700 00000064 T",
        "00008700 00000064 T ",
        "00008700 00000064 T \n ",
        "0008700 00000064 T name",
        "000008700 00000064 T name",
        "00008700 0000064 T name",
        "00008700 000000064 T name",
        "0000870g 00000064 T name",
        "00008700 0x000064 T name",
        "+0008700 00000064 T name",
        "00008700 00000064 X name",
        "00008700 00000064 \u{e9} name",
        "00008700 00000064 TT name",
        "00008700 00000064 Tname",
        "0000870000000064 T name",
        "00008700 00000064T name",
        "00008700 00000064 T na\nme",
        "00008700 00000064 T name\nnext",
    ] {
        let err = RawSymbol::from_str(line).unwrap_err();
        assert_eq!(err.kind(), ErrorKind::InvalidSymbol, "{:?}", line);
    }
}

#[test]
fn parse_allows_line_feeds_around_the_fields() {
    let raw = RawSymbol::from_str("\n00008700\n00000064\nT\nname\r\n").unwrap();
    assert_eq!(raw.addr, 0x8700);
    assert_eq!(raw.name, "name");
    let raw = RawSymbol::from_str("00008700 00000064 T a\rb").unwrap();
    assert_eq!(raw.name, "a\rb");
}

#[test]
fn combine_needs_agreement() {
    let raw = |addr, size, sym_type, name: &str| RawSymbol::new(addr, size, sym_type, String::from(name));
    let ok = Symbol::from_rawsymbols(
        raw(1, 2, SymbolType::Weak, "m"),
        raw(1, 2, SymbolType::Weak, "d"),
    )
    .unwrap();
    assert_eq!(
        ok,
        Symbol::new(
            1,
            2,
            SymbolType::Weak,
            String::from("m"),
            String::from("d"),
            SymbolLang::Any
        )
    );
    for (addr, size, sym_type) in [
        (0, 2, SymbolType::Weak),
        (1, 3, SymbolType::Weak),
        (1, 2, SymbolType::TaggedWeak),
        (9, 9, SymbolType::Unknown),
    ] {
        let err = Symbol::from_rawsymbols(raw(1, 2, SymbolType::Weak, "m"), raw(addr, size, sym_type, "m"))
            .unwrap_err();
        assert_eq!(err.kind(), ErrorKind::InvalidSymbol);
        assert!(Symbol::from_rawsymbols_lang(
            raw(addr, size, sym_type, "m"),
            raw(1, 2, SymbolType::Weak, "m"),
            SymbolLang::C
        )
        .is_err());
    }
    let with_lang = Symbol::from_rawsymbols_lang(
        raw(1, 2, SymbolType::Weak, "m"),
        raw(1, 2, SymbolType::Weak, "d"),
        SymbolLang::Cpp,
    )
    .unwrap();
    assert_eq!(with_lang.lang, SymbolLang::Cpp);
    assert_eq!(with_lang.mangled, "m");
    assert_eq!(with_lang.demangled, "d");
}

#[test]
fn related_ignores_addr_and_lang_only() {
    let sym = |addr, size, sym_type, mangled: &str, demangled: &str, lang| {
        Symbol::new(
            addr,
            size,
            sym_type,
            String::from(mangled),
            String::from(demangled),
            lang,
        )
    };
    let a = sym(1, 2, SymbolType::Weak, "m", "d", SymbolLang::Any);
    assert!(a.related(&a));
    assert!(a.related(&sym(77, 2, SymbolType::Weak, "m", "d", SymbolLang::Any)));
    assert!(a.related(&sym(77, 2, SymbolType::Weak, "m", "d", SymbolLang::Rust)));
    assert!(!a.related(&sym(1, 3, SymbolType::Weak, "m", "d", SymbolLang::Any)));
    assert!(!a.related(&sym(1, 2, SymbolType::TaggedWeak, "m", "d", SymbolLang::Any)));
    assert!(!a.related(&sym(1, 2, SymbolType::Weak, "M", "d", SymbolLang::Any)));
    assert!(!a.related(&sym(1, 2, SymbolType::Weak, "m", "", SymbolLang::Any)));
}

#[test]
fn mem_region_of_every_type() {
    for (_, sym_type) in TAGS {
        let expected = match sym_type {
            SymbolType::TextSection | SymbolType::Weak | SymbolType::TaggedWeak => MemoryRegion::Rom,
            SymbolType::BssSection
            | SymbolType::DataSection
            | SymbolType::ReadOnlyDataSection => MemoryRegion::Ram,
            _ => MemoryRegion::Unknown,
        };
        assert_eq!(sym_type.mem_region(), expected);
    }
    assert_eq!(SymbolType::Global.mem_region(), MemoryRegion::Unknown);
}

#[test]
fn names_read_back() {
    for (_, sym_type) in TAGS {
        assert_eq!(SymbolType::from_str(sym_type.name()).unwrap(), sym_type);
        assert_eq!(
            SymbolType::from_lowercase(&sym_type.name().to_lowercase()).unwrap(),
            sym_type
        );
        assert!(sym_type.name().len() == 1 || SymbolType::from_lowercase(sym_type.name()).is_err() || sym_type.name() == sym_type.name().to_lowercase());
    }
    for region in [
        MemoryRegion::Unknown,
        MemoryRegion::Rom,
        MemoryRegion::Ram,
        MemoryRegion::Both,
    ] {
        assert_eq!(MemoryRegion::from_str(region.name()).unwrap(), region);
    }
    for lang in [SymbolLang::Any, SymbolLang::C, SymbolLang::Cpp, SymbolLang::Rust] {
        assert_eq!(SymbolLang::from_str(lang.name()).unwrap(), lang);
    }
    assert_eq!(
        MemoryRegion::from_lowercase("ROM").unwrap_err().kind(),
        ErrorKind::InvalidEnumStr
    );
    assert_eq!(MemoryRegion::from_lowercase("rom").unwrap(), MemoryRegion::Rom);
    assert_eq!(
        SymbolLang::from_lowercase("Rust").unwrap_err().kind(),
        ErrorKind::InvalidEnumStr
    );
    assert_eq!(SymbolLang::from_lowercase("rust").unwrap(), SymbolLang::Rust);
    assert_eq!(
        SymbolType::from_str("").unwrap_err().kind(),
        ErrorKind::InvalidEnumStr
    );
}

#[test]
fn names_are_lowercased_as_unicode_does() {
    // The Kelvin sign has the letter k as its lowercase form.
    assert_eq!(
        MemoryRegion::from_str("un\u{212a}nown").unwrap(),
        MemoryRegion::Unknown
    );
    assert_eq!(
        SymbolType::from_str("\u{212a}").unwrap_err().kind(),
        ErrorKind::InvalidEnumStr
    );
    assert_eq!(
        SymbolType::from_str("WEA\u{212a}").unwrap(),
        SymbolType::Weak
    );
    // A single letter is a tag, and tags are not lowercased.
    assert_eq!(SymbolType::from_str("U").unwrap(), SymbolType::Undefined);
    assert_eq!(SymbolType::from_str("u").unwrap(), SymbolType::UniqueGlobal);
    assert_eq!(SymbolLang::from_str("C").unwrap(), SymbolLang::C);
}

#[test]
fn text_helpers() {
    for c in ['\t', '\n', '\u{b}', '\u{c}', '\r', ' ', '\u{85}', '\u{a0}', '\u{1680}', '\u{2000}', '\u{200a}', '\u{2028}', '\u{2029}', '\u{202f}', '\u{205f}', '\u{3000}'] {
        assert!(is_whitespace(c));
        assert!(c.is_whitespace());
    }
    for c in ['a', '0', '\u{8}', '\u{e}', '\u{1f}', '!', '\u{84}', '\u{86}', '\u{200b}', '\u{180e}', '\u{feff}', '\u{3001}'] {
        assert!(!is_whitespace(c));
        assert!(!c.is_whitespace());
    }
    for (c, d) in [('0', 0), ('9', 9), ('a', 10), ('f', 15), ('A', 10), ('F', 15)] {
        assert_eq!(hex_digit(c), Some(d));
    }
    for c in ['g', 'G', '/', ':', '@', '`', ' ', '\u{ff10}'] {
        assert_eq!(hex_digit(c), None);
    }
    assert!(str_eq("", ""));
    assert!(str_eq("abc", "abc"));
    assert!(!str_eq("abc", "abd"));
    assert!(!str_eq("abc", "ab"));
    assert!(!str_eq("ab", "abc"));
    assert!(str_eq("caf\u{e9}", "caf\u{e9}"));
    for n in [0u64, 7, 10, 99, 100, 4128, u32::MAX as u64, u64::MAX] {
        assert_eq!(decimal_string(n), n.to_string());
    }
}
