//! Symbols as the `nm` utility lists them: memory regions, languages, symbol
//! types, and the records built from the lines of a listing.

use vstd::prelude::*;

use crate::error::{Error, ErrorKind};
use crate::line::{has_line_feed, hex_word, parse_line, skip_spaces, skip_token, trim_end};
use crate::text::{chars_of, lowercase, str_eq, to_lowercase};

verus! {

/// The memory regions a symbol can be stored in.
#[derive(PartialEq, Eq, Debug, Clone, Copy, Structural)]
pub enum MemoryRegion {
    /// The region could not be determined.
    Unknown,
    /// Read-only memory.
    Rom,
    /// Random-access memory.
    Ram,
    /// As a filter: both regions.
    Both,
}

impl MemoryRegion {
    /// The name of the region, as it is spelled in the source.
    pub open spec fn spec_name(self) -> Seq<char> {
        match self {
            MemoryRegion::Unknown => "Unknown"@,
            MemoryRegion::Rom => "Rom"@,
            MemoryRegion::Ram => "Ram"@,
            MemoryRegion::Both => "Both"@,
        }
    }

    /// The region that a lowercase name stands for.
    pub open spec fn spec_from_lowercase(lower: Seq<char>) -> Option<MemoryRegion> {
        if lower == "unknown"@ {
            Some(MemoryRegion::Unknown)
        } else if lower == "rom"@ {
            Some(MemoryRegion::Rom)
        } else if lower == "ram"@ {
            Some(MemoryRegion::Ram)
        } else if lower == "both"@ {
            Some(MemoryRegion::Both)
        } else {
            None
        }
    }

    /// The region that a name stands for, whatever the case of its letters.
    pub open spec fn spec_from_str(s: Seq<char>) -> Option<MemoryRegion> {
        Self::spec_from_lowercase(lowercase(s))
    }

    /// Returns the name of the region.
    pub fn name(&self) -> (s: &'static str)
        ensures
            s@ == self.spec_name(),
    {
        match self {
            MemoryRegion::Unknown => "Unknown",
            MemoryRegion::Rom => "Rom",
            MemoryRegion::Ram => "Ram",
            MemoryRegion::Both => "Both",
        }
    }

    /// Reads a region from its name in lowercase letters.
    pub fn from_lowercase(lower: &str) -> (r: Result<MemoryRegion, Error>)
        ensures
            match Self::spec_from_lowercase(lower@) {
                Some(m) => r == Ok::<MemoryRegion, Error>(m),
                None => r matches Err(e) && e.is_plain(ErrorKind::InvalidEnumStr),
            },
    {
        if str_eq(lower, "unknown") {
            Ok(MemoryRegion::Unknown)
        } else if str_eq(lower, "rom") {
            Ok(MemoryRegion::Rom)
        } else if str_eq(lower, "ram") {
            Ok(MemoryRegion::Ram)
        } else if str_eq(lower, "both") {
            Ok(MemoryRegion::Both)
        } else {
            Err(Error::new(ErrorKind::InvalidEnumStr))
        }
    }

    /// Reads a region from its name, ignoring the case of the letters.
    pub fn from_str(s: &str) -> (r: Result<MemoryRegion, Error>)
        ensures
            match Self::spec_from_str(s@) {
                Some(m) => r == Ok::<MemoryRegion, Error>(m),
                None => r matches Err(e) && e.is_plain(ErrorKind::InvalidEnumStr),
            },
    {
        let lower = to_lowercase(s);
        Self::from_lowercase(lower.as_str())
    }

    /// Same as [`MemoryRegion::from_str`].
    pub fn try_from(s: &str) -> (r: Result<MemoryRegion, Error>)
        ensures
            match Self::spec_from_str(s@) {
                Some(m) => r == Ok::<MemoryRegion, Error>(m),
                None => r matches Err(e) && e.is_plain(ErrorKind::InvalidEnumStr),
            },
    {
        Self::from_str(s)
    }
}

/// The languages a symbol can originate from.
#[derive(PartialEq, Eq, Debug, Clone, Copy, Structural)]
pub enum SymbolLang {
    /// No language in particular. As a filter: every language.
    Any,
    Rust,
    C,
    Cpp,
}

impl SymbolLang {
    /// The name of the language, as it is spelled in the source.
    pub open spec fn spec_name(self) -> Seq<char> {
        match self {
            SymbolLang::Any => "Any"@,
            SymbolLang::Rust => "Rust"@,
            SymbolLang::C => "C"@,
            SymbolLang::Cpp => "Cpp"@,
        }
    }

    /// The language that a lowercase name stands for.
    pub open spec fn spec_from_lowercase(lower: Seq<char>) -> Option<SymbolLang> {
        if lower == "any"@ {
            Some(SymbolLang::Any)
        } else if lower == "c"@ {
            Some(SymbolLang::C)
        } else if lower == "cpp"@ {
            Some(SymbolLang::Cpp)
        } else if lower == "rust"@ {
            Some(SymbolLang::Rust)
        } else {
            None
        }
    }

    /// The language that a name stands for, whatever the case of its letters.
    pub open spec fn spec_from_str(s: Seq<char>) -> Option<SymbolLang> {
        Self::spec_from_lowercase(lowercase(s))
    }

    /// Returns the name of the language.
    pub fn name(&self) -> (s: &'static str)
        ensures
            s@ == self.spec_name(),
    {
        match self {
            SymbolLang::Any => "Any",
            SymbolLang::Rust => "Rust",
            SymbolLang::C => "C",
            SymbolLang::Cpp => "Cpp",
        }
    }

    /// Reads a language from its name in lowercase letters.
    pub fn from_lowercase(lower: &str) -> (r: Result<SymbolLang, Error>)
        ensures
            match Self::spec_from_lowercase(lower@) {
                Some(l) => r == Ok::<SymbolLang, Error>(l),
                None => r matches Err(e) && e.is_plain(ErrorKind::InvalidEnumStr),
            },
    {
        if str_eq(lower, "any") {
            Ok(SymbolLang::Any)
        } else if str_eq(lower, "c") {
            Ok(SymbolLang::C)
        } else if str_eq(lower, "cpp") {
            Ok(SymbolLang::Cpp)
        } else if str_eq(lower, "rust") {
            Ok(SymbolLang::Rust)
        } else {
            Err(Error::new(ErrorKind::InvalidEnumStr))
        }
    }

    /// Reads a language from its name, ignoring the case of the letters.
    pub fn from_str(s: &str) -> (r: Result<SymbolLang, Error>)
        ensures
            match Self::spec_from_str(s@) {
                Some(l) => r == Ok::<SymbolLang, Error>(l),
                None => r matches Err(e) && e.is_plain(ErrorKind::InvalidEnumStr),
            },
    {
        let lower = to_lowercase(s);
        Self::from_lowercase(lower.as_str())
    }

    /// Same as [`SymbolLang::from_str`].
    pub fn try_from(s: &str) -> (r: Result<SymbolLang, Error>)
        ensures
            match Self::spec_from_str(s@) {
                Some(l) => r == Ok::<SymbolLang, Error>(l),
                None => r matches Err(e) && e.is_plain(ErrorKind::InvalidEnumStr),
            },
    {
        Self::from_str(s)
    }
}

/// The symbol types that `nm` reports, each by a one-character tag.
#[derive(PartialEq, Eq, Debug, Clone, Copy, Structural)]
pub enum SymbolType {
    /// `A` - The symbol's value is absolute and will not be changed by further linking.
    Absolute,
    /// `B|b` - The symbol is in the BSS data section.
    BssSection,
    /// `C|c` - The symbol is common: uninitialized data.
    Common,
    /// `D|d` - The symbol is in the initialized data section.
    DataSection,
    /// `G|g` - The symbol is in an initialized data section for small objects.
    Global,
    /// `i` - The symbol is an indirect function.
    IndirectFunction,
    /// `I` - The symbol is an indirect reference to another symbol.
    Indirect,
    /// `N` - The symbol is a debugging symbol.
    Debug,
    /// `n|R|r` - The symbol is in the read-only data section.
    ReadOnlyDataSection,
    /// `p` - The symbol is in a stack unwind section.
    StackUnwindSection,
    /// `S|s` - The symbol is in an uninitialized or zero-initialized data section for small
    /// objects.
    UninitializedOrZeroInitialized,
    /// `T|t` - The symbol is in the text (code) section.
    TextSection,
    /// `U` - The symbol is undefined.
    Undefined,
    /// `u` - The symbol is a unique global symbol.
    UniqueGlobal,
    /// `V|v` - The symbol is a weak object.
    TaggedWeak,
    /// `W|w` - The symbol is a weak symbol that has not been tagged as a weak object.
    Weak,
    /// `-` - The symbol is a stabs symbol in an a.out object file.
    Stabs,
    /// `?` - The symbol type is unknown, or specific to the object file format.
    Unknown,
}

impl SymbolType {
    /// The name of the type, as it is spelled in the source.
    pub open spec fn spec_name(self) -> Seq<char> {
        match self {
            SymbolType::Absolute => "Absolute"@,
            SymbolType::BssSection => "BssSection"@,
            SymbolType::Common => "Common"@,
            SymbolType::DataSection => "DataSection"@,
            SymbolType::Global => "Global"@,
            SymbolType::IndirectFunction => "IndirectFunction"@,
            SymbolType::Indirect => "Indirect"@,
            SymbolType::Debug => "Debug"@,
            SymbolType::ReadOnlyDataSection => "ReadOnlyDataSection"@,
            SymbolType::StackUnwindSection => "StackUnwindSection"@,
            SymbolType::UninitializedOrZeroInitialized => "UninitializedOrZeroInitialized"@,
            SymbolType::TextSection => "TextSection"@,
            SymbolType::Undefined => "Undefined"@,
            SymbolType::UniqueGlobal => "UniqueGlobal"@,
            SymbolType::TaggedWeak => "TaggedWeak"@,
            SymbolType::Weak => "Weak"@,
            SymbolType::Stabs => "Stabs"@,
            SymbolType::Unknown => "Unknown"@,
        }
    }

    /// The tag under which a listing rendered by this crate shows the type.
    pub open spec fn spec_tag(self) -> char {
        match self {
            SymbolType::Absolute => 'A',
            SymbolType::BssSection => 'B',
            SymbolType::Common => 'C',
            SymbolType::DataSection => 'D',
            SymbolType::Global => 'G',
            SymbolType::IndirectFunction => 'i',
            SymbolType::Indirect => 'I',
            SymbolType::Debug => 'N',
            SymbolType::ReadOnlyDataSection => 'R',
            SymbolType::StackUnwindSection => 'p',
            SymbolType::UninitializedOrZeroInitialized => 'S',
            SymbolType::TextSection => 'T',
            SymbolType::Undefined => 'U',
            SymbolType::UniqueGlobal => 'u',
            SymbolType::TaggedWeak => 'V',
            SymbolType::Weak => 'W',
            SymbolType::Stabs => '-',
            SymbolType::Unknown => '?',
        }
    }

    /// The type that a one-character tag stands for.
    pub open spec fn spec_from_tag(c: char) -> Option<SymbolType> {
        if c == 'A' {
            Some(SymbolType::Absolute)
        } else if c == 'B' || c == 'b' {
            Some(SymbolType::BssSection)
        } else if c == 'C' || c == 'c' {
            Some(SymbolType::Common)
        } else if c == 'D' || c == 'd' {
            Some(SymbolType::DataSection)
        } else if c == 'G' || c == 'g' {
            Some(SymbolType::Global)
        } else if c == 'i' {
            Some(SymbolType::IndirectFunction)
        } else if c == 'I' {
            Some(SymbolType::Indirect)
        } else if c == 'N' {
            Some(SymbolType::Debug)
        } else if c == 'n' || c == 'R' || c == 'r' {
            Some(SymbolType::ReadOnlyDataSection)
        } else if c == 'p' {
            Some(SymbolType::StackUnwindSection)
        } else if c == 'S' || c == 's' {
            Some(SymbolType::UninitializedOrZeroInitialized)
        } else if c == 'T' || c == 't' {
            Some(SymbolType::TextSection)
        } else if c == 'U' {
            Some(SymbolType::Undefined)
        } else if c == 'u' {
            Some(SymbolType::UniqueGlobal)
        } else if c == 'V' || c == 'v' {
            Some(SymbolType::TaggedWeak)
        } else if c == 'W' || c == 'w' {
            Some(SymbolType::Weak)
        } else if c == '-' {
            Some(SymbolType::Stabs)
        } else if c == '?' {
            Some(SymbolType::Unknown)
        } else {
            None
        }
    }

    /// The type that a lowercase name stands for.
    pub open spec fn spec_from_lowercase(lower: Seq<char>) -> Option<SymbolType> {
        if lower == "absolute"@ {
            Some(SymbolType::Absolute)
        } else if lower == "bsssection"@ {
            Some(SymbolType::BssSection)
        } else if lower == "common"@ {
            Some(SymbolType::Common)
        } else if lower == "datasection"@ {
            Some(SymbolType::DataSection)
        } else if lower == "global"@ {
            Some(SymbolType::Global)
        } else if lower == "indirectfunction"@ {
            Some(SymbolType::IndirectFunction)
        } else if lower == "indirect"@ {
            Some(SymbolType::Indirect)
        } else if lower == "debug"@ {
            Some(SymbolType::Debug)
        } else if lower == "readonlydatasection"@ {
            Some(SymbolType::ReadOnlyDataSection)
        } else if lower == "stackunwindsection"@ {
            Some(SymbolType::StackUnwindSection)
        } else if lower == "uninitializedorzeroinitialized"@ {
            Some(SymbolType::UninitializedOrZeroInitialized)
        } else if lower == "textsection"@ {
            Some(SymbolType::TextSection)
        } else if lower == "undefined"@ {
            Some(SymbolType::Undefined)
        } else if lower == "uniqueglobal"@ {
            Some(SymbolType::UniqueGlobal)
        } else if lower == "taggedweak"@ {
            Some(SymbolType::TaggedWeak)
        } else if lower == "weak"@ {
            Some(SymbolType::Weak)
        } else if lower == "stabs"@ {
            Some(SymbolType::Stabs)
        } else if lower == "unknown"@ {
            Some(SymbolType::Unknown)
        } else {
            None
        }
    }

    /// The type that a string stands for: a string of a single ASCII character
    /// is read as a tag, any other as a name, whatever the case of its letters.
    pub open spec fn spec_from_str(s: Seq<char>) -> Option<SymbolType> {
        if s.len() == 1 && (s[0] as u32) < 0x80 {
            Self::spec_from_tag(s[0])
        } else {
            Self::spec_from_lowercase(lowercase(s))
        }
    }

    /// The memory region that symbols of this type are stored in. Code is in
    /// ROM; data, read-only data included, is in RAM. For every other type the
    /// region is `Unknown`.
    pub open spec fn spec_mem_region(self) -> MemoryRegion {
        match self {
            SymbolType::TextSection | SymbolType::Weak | SymbolType::TaggedWeak => MemoryRegion::Rom,
            SymbolType::BssSection | SymbolType::DataSection | SymbolType::ReadOnlyDataSection => {
                MemoryRegion::Ram
            },
            _ => MemoryRegion::Unknown,
        }
    }

    /// Returns the name of the type.
    pub fn name(&self) -> (s: &'static str)
        ensures
            s@ == self.spec_name(),
    {
        match self {
            SymbolType::Absolute => "Absolute",
            SymbolType::BssSection => "BssSection",
            SymbolType::Common => "Common",
            SymbolType::DataSection => "DataSection",
            SymbolType::Global => "Global",
            SymbolType::IndirectFunction => "IndirectFunction",
            SymbolType::Indirect => "Indirect",
            SymbolType::Debug => "Debug",
            SymbolType::ReadOnlyDataSection => "ReadOnlyDataSection",
            SymbolType::StackUnwindSection => "StackUnwindSection",
            SymbolType::UninitializedOrZeroInitialized => "UninitializedOrZeroInitialized",
            SymbolType::TextSection => "TextSection",
            SymbolType::Undefined => "Undefined",
            SymbolType::UniqueGlobal => "UniqueGlobal",
            SymbolType::TaggedWeak => "TaggedWeak",
            SymbolType::Weak => "Weak",
            SymbolType::Stabs => "Stabs",
            SymbolType::Unknown => "Unknown",
        }
    }

    /// Reads a type from its one-character tag.
    pub fn from_tag(c: char) -> (r: Option<SymbolType>)
        ensures
            r == Self::spec_from_tag(c),
    {
        if c == 'A' {
            Some(SymbolType::Absolute)
        } else if c == 'B' || c == 'b' {
            Some(SymbolType::BssSection)
        } else if c == 'C' || c == 'c' {
            Some(SymbolType::Common)
        } else if c == 'D' || c == 'd' {
            Some(SymbolType::DataSection)
        } else if c == 'G' || c == 'g' {
            Some(SymbolType::Global)
        } else if c == 'i' {
            Some(SymbolType::IndirectFunction)
        } else if c == 'I' {
            Some(SymbolType::Indirect)
        } else if c == 'N' {
            Some(SymbolType::Debug)
        } else if c == 'n' || c == 'R' || c == 'r' {
            Some(SymbolType::ReadOnlyDataSection)
        } else if c == 'p' {
            Some(SymbolType::StackUnwindSection)
        } else if c == 'S' || c == 's' {
            Some(SymbolType::UninitializedOrZeroInitialized)
        } else if c == 'T' || c == 't' {
            Some(SymbolType::TextSection)
        } else if c == 'U' {
            Some(SymbolType::Undefined)
        } else if c == 'u' {
            Some(SymbolType::UniqueGlobal)
        } else if c == 'V' || c == 'v' {
            Some(SymbolType::TaggedWeak)
        } else if c == 'W' || c == 'w' {
            Some(SymbolType::Weak)
        } else if c == '-' {
            Some(SymbolType::Stabs)
        } else if c == '?' {
            Some(SymbolType::Unknown)
        } else {
            None
        }
    }

    /// Reads a type from its name in lowercase letters.
    pub fn from_lowercase(lower: &str) -> (r: Result<SymbolType, Error>)
        ensures
            match Self::spec_from_lowercase(lower@) {
                Some(t) => r == Ok::<SymbolType, Error>(t),
                None => r matches Err(e) && e.is_plain(ErrorKind::InvalidEnumStr),
            },
    {
        if str_eq(lower, "absolute") {
            Ok(SymbolType::Absolute)
        } else if str_eq(lower, "bsssection") {
            Ok(SymbolType::BssSection)
        } else if str_eq(lower, "common") {
            Ok(SymbolType::Common)
        } else if str_eq(lower, "datasection") {
            Ok(SymbolType::DataSection)
        } else if str_eq(lower, "global") {
            Ok(SymbolType::Global)
        } else if str_eq(lower, "indirectfunction") {
            Ok(SymbolType::IndirectFunction)
        } else if str_eq(lower, "indirect") {
            Ok(SymbolType::Indirect)
        } else if str_eq(lower, "debug") {
            Ok(SymbolType::Debug)
        } else if str_eq(lower, "readonlydatasection") {
            Ok(SymbolType::ReadOnlyDataSection)
        } else if str_eq(lower, "stackunwindsection") {
            Ok(SymbolType::StackUnwindSection)
        } else if str_eq(lower, "uninitializedorzeroinitialized") {
            Ok(SymbolType::UninitializedOrZeroInitialized)
        } else if str_eq(lower, "textsection") {
            Ok(SymbolType::TextSection)
        } else if str_eq(lower, "undefined") {
            Ok(SymbolType::Undefined)
        } else if str_eq(lower, "uniqueglobal") {
            Ok(SymbolType::UniqueGlobal)
        } else if str_eq(lower, "taggedweak") {
            Ok(SymbolType::TaggedWeak)
        } else if str_eq(lower, "weak") {
            Ok(SymbolType::Weak)
        } else if str_eq(lower, "stabs") {
            Ok(SymbolType::Stabs)
        } else if str_eq(lower, "unknown") {
            Ok(SymbolType::Unknown)
        } else {
            Err(Error::new(ErrorKind::InvalidEnumStr))
        }
    }

    /// Reads a type from its tag or from its name. A string of a single ASCII
    /// character is taken as a tag; any other string as a name, ignoring the
    /// case of the letters.
    pub fn from_str(s: &str) -> (r: Result<SymbolType, Error>)
        ensures
            match Self::spec_from_str(s@) {
                Some(t) => r == Ok::<SymbolType, Error>(t),
                None => r matches Err(e) && e.is_plain(ErrorKind::InvalidEnumStr),
            },
    {
        let chars = chars_of(s);
        if chars.len() == 1 && (chars[0] as u32) < 0x80 {
            match Self::from_tag(chars[0]) {
                Some(t) => Ok(t),
                None => Err(Error::new(ErrorKind::InvalidEnumStr)),
            }
        } else {
            let lower = to_lowercase(s);
            Self::from_lowercase(lower.as_str())
        }
    }

    /// Same as [`SymbolType::from_str`].
    pub fn try_from(s: &str) -> (r: Result<SymbolType, Error>)
        ensures
            match Self::spec_from_str(s@) {
                Some(t) => r == Ok::<SymbolType, Error>(t),
                None => r matches Err(e) && e.is_plain(ErrorKind::InvalidEnumStr),
            },
    {
        Self::from_str(s)
    }

    /// Returns the memory region that symbols of this type are stored in, or
    /// `MemoryRegion::Unknown` where the type does not determine it.
    pub fn mem_region(&self) -> (r: MemoryRegion)
        ensures
            r == self.spec_mem_region(),
            r != MemoryRegion::Both,
    {
        match self {
            SymbolType::TextSection | SymbolType::Weak | SymbolType::TaggedWeak => MemoryRegion::Rom,
            SymbolType::BssSection | SymbolType::DataSection | SymbolType::ReadOnlyDataSection => {
                MemoryRegion::Ram
            },
            _ => MemoryRegion::Unknown,
        }
    }

    /// Every type is read back from the tag it is rendered with.
    pub proof fn lemma_tag_roundtrip(self)
        ensures
            Self::spec_from_tag(self.spec_tag()) == Some(self),
    {
    }
}

/// What a [`RawSymbol`] holds.
pub struct RawSymbolView {
    pub addr: u32,
    pub size: u32,
    pub sym_type: SymbolType,
    pub name: Seq<char>,
}

/// The data of one line of a listing. The name is either the mangled or the
/// demangled one, depending on the listing the line is from.
#[derive(PartialEq, Debug)]
pub struct RawSymbol {
    pub addr: u32,
    pub size: u32,
    pub sym_type: SymbolType,
    pub name: String,
}

impl View for RawSymbol {
    type V = RawSymbolView;

    open spec fn view(&self) -> RawSymbolView {
        RawSymbolView {
            addr: self.addr,
            size: self.size,
            sym_type: self.sym_type,
            name: self.name@,
        }
    }
}

impl Default for RawSymbol {
    /// A symbol of unknown type at address 0, without size or name.
    fn default() -> (r: RawSymbol)
        ensures
            r@ == (RawSymbolView {
                addr: 0,
                size: 0,
                sym_type: SymbolType::Unknown,
                name: Seq::empty(),
            }),
    {
        RawSymbol { addr: 0, size: 0, sym_type: SymbolType::Unknown, name: String::new() }
    }
}

impl RawSymbol {
    /// Creates a raw symbol from its parts.
    pub fn new(addr: u32, size: u32, sym_type: SymbolType, name: String) -> (r: RawSymbol)
        ensures
            r@ == (RawSymbolView { addr, size, sym_type, name: name@ }),
    {
        RawSymbol { addr, size, sym_type, name }
    }

    /// Parses one line of a listing. Fails with `InvalidSymbol` unless the line
    /// holds an address and a size of eight hexadecimal digits each, a known
    /// one-character tag and a name, separated by whitespace.
    pub fn from_str(s: &str) -> (r: Result<RawSymbol, Error>)
        ensures
            match parse_line(s@) {
                Some(v) => r matches Ok(raw) && raw@ == v,
                None => r matches Err(e) && e.is_plain(ErrorKind::InvalidSymbol),
            },
    {
        let chars = chars_of(s);
        let a0 = skip_spaces(&chars, 0);
        let a1 = skip_token(&chars, a0);
        let b0 = skip_spaces(&chars, a1);
        let b1 = skip_token(&chars, b0);
        let t0 = skip_spaces(&chars, b1);
        let t1 = skip_token(&chars, t0);
        let n0 = skip_spaces(&chars, t1);
        let n1 = trim_end(&chars);
        let addr = match hex_word(&chars, a0, a1) {
            Some(v) => v,
            None => {
                return Err(Error::new(ErrorKind::InvalidSymbol));
            },
        };
        let size = match hex_word(&chars, b0, b1) {
            Some(v) => v,
            None => {
                return Err(Error::new(ErrorKind::InvalidSymbol));
            },
        };
        if t1 - t0 != 1 {
            return Err(Error::new(ErrorKind::InvalidSymbol));
        }
        let sym_type = match SymbolType::from_tag(chars[t0]) {
            Some(t) => t,
            None => {
                return Err(Error::new(ErrorKind::InvalidSymbol));
            },
        };
        if n0 >= n1 || has_line_feed(&chars, n0, n1) {
            return Err(Error::new(ErrorKind::InvalidSymbol));
        }
        let name = String::from_str(s.substring_char(n0, n1));
        Ok(RawSymbol { addr, size, sym_type, name })
    }

    /// Same as [`RawSymbol::from_str`].
    pub fn try_from(s: &str) -> (r: Result<RawSymbol, Error>)
        ensures
            match parse_line(s@) {
                Some(v) => r matches Ok(raw) && raw@ == v,
                None => r matches Err(e) && e.is_plain(ErrorKind::InvalidSymbol),
            },
    {
        Self::from_str(s)
    }
}

/// What a [`Symbol`] holds.
pub struct SymbolView {
    pub addr: u32,
    pub size: u32,
    pub sym_type: SymbolType,
    pub mangled: Seq<char>,
    pub demangled: Seq<char>,
    pub lang: SymbolLang,
}

impl SymbolView {
    /// The same symbol with another language.
    pub open spec fn with_lang(self, lang: SymbolLang) -> SymbolView {
        SymbolView { lang, ..self }
    }

    /// Whether two symbols are related: they agree in both names, in type and
    /// in size. The address does not count, since the linker gives the symbols
    /// of a library new addresses.
    pub open spec fn related(self, other: SymbolView) -> bool {
        &&& self.mangled == other.mangled
        &&& self.demangled == other.demangled
        &&& self.sym_type == other.sym_type
        &&& self.size == other.size
    }
}

/// Whether the mangled and the demangled line of one entry agree in address,
/// size and type.
pub open spec fn agree(mangled: RawSymbolView, demangled: RawSymbolView) -> bool {
    &&& mangled.addr == demangled.addr
    &&& mangled.size == demangled.size
    &&& mangled.sym_type == demangled.sym_type
}

/// The symbol that a mangled and a demangled raw symbol make, if they agree.
/// Its language is `Any`.
pub open spec fn combine(mangled: RawSymbolView, demangled: RawSymbolView) -> Option<SymbolView> {
    if agree(mangled, demangled) {
        Some(
            SymbolView {
                addr: mangled.addr,
                size: mangled.size,
                sym_type: mangled.sym_type,
                mangled: mangled.name,
                demangled: demangled.name,
                lang: SymbolLang::Any,
            },
        )
    } else {
        None
    }
}

/// The symbol that a mangled and a demangled line make, if both are
/// well-formed and agree. Its language is `Any`.
pub open spec fn combine_lines(mangled: Seq<char>, demangled: Seq<char>) -> Option<SymbolView> {
    match (parse_line(mangled), parse_line(demangled)) {
        (Some(m), Some(d)) => combine(m, d),
        _ => None,
    }
}

/// A symbol: the mangled and the demangled line of one entry of a listing put
/// together, with the language it is attributed to.
#[derive(PartialEq, Debug)]
pub struct Symbol {
    pub addr: u32,
    pub size: u32,
    pub sym_type: SymbolType,
    pub mangled: String,
    pub demangled: String,
    pub lang: SymbolLang,
}

impl View for Symbol {
    type V = SymbolView;

    open spec fn view(&self) -> SymbolView {
        SymbolView {
            addr: self.addr,
            size: self.size,
            sym_type: self.sym_type,
            mangled: self.mangled@,
            demangled: self.demangled@,
            lang: self.lang,
        }
    }
}

impl DeepView for Symbol {
    type V = SymbolView;

    open spec fn deep_view(&self) -> SymbolView {
        self@
    }
}

impl Symbol {
    /// Creates a symbol from its parts.
    pub fn new(
        addr: u32,
        size: u32,
        sym_type: SymbolType,
        mangled: String,
        demangled: String,
        lang: SymbolLang,
    ) -> (s: Symbol)
        ensures
            s@ == (SymbolView {
                addr,
                size,
                sym_type,
                mangled: mangled@,
                demangled: demangled@,
                lang,
            }),
    {
        Symbol { addr, size, sym_type, mangled, demangled, lang }
    }

    /// Puts the mangled and the demangled raw symbol of one entry together.
    /// Fails with `InvalidSymbol` unless the two agree in address, size and
    /// type. The language of the symbol is `Any`.
    pub fn from_rawsymbols(mangled: RawSymbol, demangled: RawSymbol) -> (r: Result<Symbol, Error>)
        ensures
            match combine(mangled@, demangled@) {
                Some(v) => r matches Ok(s) && s@ == v,
                None => r matches Err(e) && e.is_plain(ErrorKind::InvalidSymbol),
            },
    {
        if mangled.addr != demangled.addr || mangled.size != demangled.size || mangled.sym_type
            != demangled.sym_type {
            return Err(Error::new(ErrorKind::InvalidSymbol));
        }
        Ok(
            Symbol {
                addr: mangled.addr,
                size: mangled.size,
                sym_type: mangled.sym_type,
                mangled: mangled.name,
                demangled: demangled.name,
                lang: SymbolLang::Any,
            },
        )
    }

    /// Same as [`Symbol::from_rawsymbols`], but with the given language.
    pub fn from_rawsymbols_lang(mangled: RawSymbol, demangled: RawSymbol, lang: SymbolLang) -> (r:
        Result<Symbol, Error>)
        ensures
            match combine(mangled@, demangled@) {
                Some(v) => r matches Ok(s) && s@ == v.with_lang(lang),
                None => r matches Err(e) && e.is_plain(ErrorKind::InvalidSymbol),
            },
    {
        match Symbol::from_rawsymbols(mangled, demangled) {
            Ok(s) => {
                let mut s = s;
                s.lang = lang;
                Ok(s)
            },
            Err(e) => Err(e),
        }
    }

    /// Parses the mangled and the demangled line of one entry and puts them
    /// together. Fails with `InvalidSymbol` unless both lines are well-formed
    /// and agree in address, size and type. The language of the symbol is `Any`.
    pub fn from_lines(mangled: &str, demangled: &str) -> (r: Result<Symbol, Error>)
        ensures
            match combine_lines(mangled@, demangled@) {
                Some(v) => r matches Ok(s) && s@ == v,
                None => r matches Err(e) && e.is_plain(ErrorKind::InvalidSymbol),
            },
    {
        let m = match RawSymbol::from_str(mangled) {
            Ok(m) => m,
            Err(e) => {
                return Err(e);
            },
        };
        let d = match RawSymbol::from_str(demangled) {
            Ok(d) => d,
            Err(e) => {
                return Err(e);
            },
        };
        Symbol::from_rawsymbols(m, d)
    }

    /// Same as [`Symbol::from_lines`], but with the given language.
    pub fn from_lines_lang(mangled: &str, demangled: &str, lang: SymbolLang) -> (r: Result<
        Symbol,
        Error,
    >)
        ensures
            match combine_lines(mangled@, demangled@) {
                Some(v) => r matches Ok(s) && s@ == v.with_lang(lang),
                None => r matches Err(e) && e.is_plain(ErrorKind::InvalidSymbol),
            },
    {
        match Symbol::from_lines(mangled, demangled) {
            Ok(s) => {
                let mut s = s;
                s.lang = lang;
                Ok(s)
            },
            Err(e) => Err(e),
        }
    }

    /// Whether the two symbols are related: whether they agree in both names,
    /// in type and in size.
    pub fn related(&self, other: &Symbol) -> (r: bool)
        ensures
            r == self@.related(other@),
    {
        self.mangled == other.mangled && self.demangled == other.demangled && self.sym_type
            == other.sym_type && self.size == other.size
    }
}

/// Two raw symbols make a symbol if and only if they agree in address, size
/// and type.
pub proof fn lemma_combine_iff_agree(mangled: RawSymbolView, demangled: RawSymbolView)
    ensures
        combine(mangled, demangled) is Some <==> (mangled.addr == demangled.addr && mangled.size
            == demangled.size && mangled.sym_type == demangled.sym_type),
{
}

/// Symbols that differ in nothing but the address are related.
pub proof fn lemma_related_ignores_addr(a: SymbolView, addr: u32)
    ensures
        a.related(SymbolView { addr, ..a }),
        (SymbolView { addr, ..a }).related(a),
{
}

/// Symbols that differ in the mangled name, the demangled name, the type or
/// the size are not related.
pub proof fn lemma_related_needs_identity(a: SymbolView, b: SymbolView)
    requires
        a.mangled != b.mangled || a.demangled != b.demangled || a.sym_type != b.sym_type || a.size
            != b.size,
    ensures
        !a.related(b),
{
}

} // verus!
