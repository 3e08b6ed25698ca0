//! Detects the language a symbol originates from, by looking it up in the
//! listings of the static libraries that were linked into the binary.

use std::path::PathBuf;
use vstd::prelude::*;

use crate::error::{Error, ErrorKind};
use crate::sym::{combine, combine_lines, RawSymbol, Symbol, SymbolLang, SymbolView};

verus! {

/// Declares `std::path::PathBuf`, the owned path of the standard library, as
/// a type whose values are carried along and never looked into.
#[verifier::external_type_specification]
#[verifier::external_body]
pub struct ExPathBuf(PathBuf);

/// A static library: its path and the language its symbols are attributed to.
#[derive(Debug, PartialEq)]
pub struct Library {
    pub path: PathBuf,
    pub lang: SymbolLang,
}

impl Library {
    /// Creates a library from the language of its symbols and its path.
    pub fn new(lang: SymbolLang, path: PathBuf) -> (lib: Library)
        ensures
            lib.lang == lang,
            lib.path == path,
    {
        Library { path, lang }
    }
}

/// The two listings of one object file, library or binary: its symbol table
/// with mangled and with demangled names, line by line. Line `i` of the one
/// and line `i` of the other describe the same symbol.
#[derive(Debug, PartialEq)]
pub struct Listing {
    pub mangled: Vec<String>,
    pub demangled: Vec<String>,
}

/// The pairs of lines that two listings hold: as many as the shorter of the
/// two has lines.
pub open spec fn line_pairs(mangled: Seq<Seq<char>>, demangled: Seq<Seq<char>>) -> Seq<
    (Seq<char>, Seq<char>),
> {
    Seq::new(
        if mangled.len() <= demangled.len() {
            mangled.len()
        } else {
            demangled.len()
        },
        |i: int| (mangled[i], demangled[i]),
    )
}

impl Listing {
    /// The pairs of lines of the listing.
    pub open spec fn pairs(&self) -> Seq<(Seq<char>, Seq<char>)> {
        line_pairs(self.mangled.deep_view(), self.demangled.deep_view())
    }

    /// Creates a listing from its lines with mangled and with demangled names.
    pub fn new(mangled: Vec<String>, demangled: Vec<String>) -> (l: Listing)
        ensures
            l.mangled == mangled,
            l.demangled == demangled,
    {
        Listing { mangled, demangled }
    }

    /// The number of pairs of lines.
    pub fn len(&self) -> (n: usize)
        ensures
            n == self.pairs().len(),
    {
        if self.mangled.len() <= self.demangled.len() {
            self.mangled.len()
        } else {
            self.demangled.len()
        }
    }
}

/// Whether `c` can start an identifier: a letter or an underscore.
pub open spec fn is_ident_start(c: char) -> bool {
    ('a' <= c <= 'z') || ('A' <= c <= 'Z') || c == '_'
}

/// Whether `c` can stand in a label: a letter, a digit, an underscore or a dot.
pub open spec fn is_label_char(c: char) -> bool {
    is_ident_start(c) || ('0' <= c <= '9') || c == '.'
}

/// Whether `name` is a label as a compiler writes it for a name that it did
/// not mangle: an identifier, in which dots may stand too.
pub open spec fn is_label(name: Seq<char>) -> bool {
    &&& name.len() > 0
    &&& is_ident_start(name[0])
    &&& forall|i: int| 0 <= i < name.len() ==> is_label_char(#[trigger] name[i])
}

/// Whether a symbol of a library is kept for reference: one with a mangled
/// name is; one without is only where its name is a label.
pub open spec fn is_kept(sym: SymbolView) -> bool {
    sym.mangled != sym.demangled || is_label(sym.mangled)
}

/// The entry that a pair of lines of a library's listing makes, if it makes
/// one: the two lines are well-formed, agree, and the symbol is kept.
pub open spec fn library_entry(lang: SymbolLang, pair: (Seq<char>, Seq<char>)) -> Option<
    SymbolView,
> {
    match combine_lines(pair.0, pair.1) {
        Some(sym) => if is_kept(sym) {
            Some(sym.with_lang(lang))
        } else {
            None
        },
        None => None,
    }
}

/// The entries that the pairs of lines of a library's listing make, in the
/// order of the listing.
pub open spec fn library_entries(lang: SymbolLang, pairs: Seq<(Seq<char>, Seq<char>)>) -> Seq<
    SymbolView,
> {
    pairs.filter_map(|pair: (Seq<char>, Seq<char>)| library_entry(lang, pair))
}

/// Whether `c` can start an identifier.
pub fn ident_start(c: char) -> (r: bool)
    ensures
        r == is_ident_start(c),
{
    ('a' <= c && c <= 'z') || ('A' <= c && c <= 'Z') || c == '_'
}

/// Whether `c` can stand in a label.
pub fn label_char(c: char) -> (r: bool)
    ensures
        r == is_label_char(c),
{
    ident_start(c) || ('0' <= c && c <= '9') || c == '.'
}

/// Whether `name` is a label.
pub fn label(name: &str) -> (r: bool)
    ensures
        r == is_label(name@),
{
    let mut first = true;
    for c in it: name.chars()
        invariant
            it.seq() == name@,
            first == (it.index() == 0),
            it.index() > 0 ==> is_ident_start(name@[0]),
            forall|i: int| 0 <= i < it.index() ==> is_label_char(#[trigger] name@[i]),
    {
        if first && !ident_start(c) {
            return false;
        }
        if !label_char(c) {
            return false;
        }
        first = false;
    }
    !first
}

/// What a [`ParsedLibrary`] holds.
pub struct ParsedLibraryView {
    pub lang: SymbolLang,
    pub syms: Seq<SymbolView>,
}

impl ParsedLibraryView {
    /// Whether every symbol is attributed to the language of the library and
    /// is one that is kept for reference.
    pub open spec fn wf(self) -> bool {
        forall|i: int|
            0 <= i < self.syms.len() ==> (#[trigger] self.syms[i]).lang == self.lang && is_kept(
                self.syms[i],
            )
    }

    /// Whether the library holds a symbol that `sym` is related to.
    pub open spec fn holds_related(self, sym: SymbolView) -> bool {
        exists|i: int| 0 <= i < self.syms.len() && sym.related(#[trigger] self.syms[i])
    }
}

/// The symbols of a static library that serve as reference, and the language
/// they are attributed to.
#[derive(Debug, PartialEq)]
pub struct ParsedLibrary {
    lang: SymbolLang,
    syms: Vec<Symbol>,
}

impl View for ParsedLibrary {
    type V = ParsedLibraryView;

    closed spec fn view(&self) -> ParsedLibraryView {
        ParsedLibraryView { lang: self.lang, syms: self.syms.deep_view() }
    }
}

impl ParsedLibrary {
    #[verifier::type_invariant]
    spec fn inv(&self) -> bool {
        self@.wf()
    }

    /// Reads the symbols of a library from its listing. A pair of lines that
    /// does not make a symbol is passed over, and so is a symbol without a
    /// mangled name whose name is no label.
    pub fn build(lang: SymbolLang, listing: &Listing) -> (lib: ParsedLibrary)
        ensures
            lib@.lang == lang,
            lib@.syms == library_entries(lang, listing.pairs()),
            lib@.wf(),
    {
        let n = listing.len();
        let ghost pairs = listing.pairs();
        let ghost entry = |pair: (Seq<char>, Seq<char>)| library_entry(lang, pair);
        let mut syms: Vec<Symbol> = Vec::new();
        let mut i: usize = 0;
        proof {
            assert(pairs.take(0).filter_map(entry) == Seq::<SymbolView>::empty());
            assert(syms.deep_view() == Seq::<SymbolView>::empty());
        }
        while i < n
            invariant
                i <= n,
                n == pairs.len(),
                n <= listing.mangled.len(),
                n <= listing.demangled.len(),
                pairs == listing.pairs(),
                entry == |pair: (Seq<char>, Seq<char>)| library_entry(lang, pair),
                syms.deep_view() == pairs.take(i as int).filter_map(entry),
                forall|k: int|
                    0 <= k < syms.len() ==> (#[trigger] syms@[k])@.lang == lang && is_kept(
                        syms@[k]@,
                    ),
            decreases n - i,
        {
            let ghost before = syms.deep_view();
            proof {
                pairs.lemma_filter_map_take_succ(entry, i as int);
                assert(pairs[i as int] == (listing.mangled@[i as int]@, listing.demangled@[i as int]@));
            }
            match Symbol::from_lines_lang(
                listing.mangled[i].as_str(),
                listing.demangled[i].as_str(),
                lang,
            ) {
                Ok(s) => {
                    let keep = if s.mangled == s.demangled {
                        label(s.mangled.as_str())
                    } else {
                        true
                    };
                    if keep {
                        let ghost v = s@;
                        syms.push(s);
                        proof {
                            assert(syms.deep_view() == before + seq![v]);
                        }
                    }
                },
                Err(_) => {},
            }
            i += 1;
        }
        proof {
            assert(pairs.take(n as int) == pairs);
        }
        ParsedLibrary { lang, syms }
    }

    /// The language that the symbols of the library are attributed to.
    pub fn lang(&self) -> (l: SymbolLang)
        ensures
            l == self@.lang,
    {
        self.lang
    }

    /// The symbols of the library.
    pub fn syms(&self) -> (syms: &Vec<Symbol>)
        ensures
            syms.deep_view() == self@.syms,
            self@.wf(),
    {
        proof {
            use_type_invariant(self);
        }
        &self.syms
    }

    /// Whether the library holds a symbol that `sym` is related to.
    pub fn holds_related(&self, sym: &Symbol) -> (r: bool)
        ensures
            r == self@.holds_related(sym@),
    {
        let mut i: usize = 0;
        while i < self.syms.len()
            invariant
                i <= self.syms.len(),
                forall|k: int| 0 <= k < i ==> !sym@.related(#[trigger] self@.syms[k]),
            decreases self.syms.len() - i,
        {
            if sym.related(&self.syms[i]) {
                assert(sym@.related(self@.syms[i as int]));
                return true;
            }
            i += 1;
        }
        false
    }
}

/// What a [`LangDetector`] holds.
pub struct LangDetectorView {
    pub default_lang: SymbolLang,
    pub default_mangled_lang: SymbolLang,
    pub libs: Seq<ParsedLibraryView>,
}

impl LangDetectorView {
    /// The index of the first library, at or after `from`, that holds a symbol
    /// that `sym` is related to; the number of libraries if there is none.
    pub open spec fn first_match(self, sym: SymbolView, from: int) -> int
        decreases self.libs.len() - from,
    {
        if 0 <= from < self.libs.len() && !self.libs[from].holds_related(sym) {
            self.first_match(sym, from + 1)
        } else {
            from
        }
    }

    /// The language of a symbol that no library holds: the default language
    /// if its name is not mangled, else the default language of mangled names.
    pub open spec fn fallback_lang(self, sym: SymbolView) -> SymbolLang {
        if sym.mangled == sym.demangled {
            self.default_lang
        } else {
            self.default_mangled_lang
        }
    }

    /// The language that `sym` originates from: that of the first library
    /// that holds a symbol related to it, else the fallback.
    pub open spec fn lang_of(self, sym: SymbolView) -> SymbolLang {
        let i = self.first_match(sym, 0);
        if i < self.libs.len() {
            self.libs[i].lang
        } else {
            self.fallback_lang(sym)
        }
    }

    /// The symbol with the language it originates from.
    pub open spec fn detect(self, sym: SymbolView) -> SymbolView {
        sym.with_lang(self.lang_of(sym))
    }

    /// The detector with one more library, which is consulted last.
    pub open spec fn with_lib(self, lib: ParsedLibraryView) -> LangDetectorView {
        LangDetectorView { libs: self.libs.push(lib), ..self }
    }
}

/// Determines the language that symbols originate from: from the libraries
/// that were added to it, in the order in which they were added, and from two
/// defaults for the symbols that no library holds.
#[derive(Debug)]
pub struct LangDetector {
    default_lang: SymbolLang,
    default_mangled_lang: SymbolLang,
    libs: Vec<ParsedLibrary>,
}

impl View for LangDetector {
    type V = LangDetectorView;

    closed spec fn view(&self) -> LangDetectorView {
        LangDetectorView {
            default_lang: self.default_lang,
            default_mangled_lang: self.default_mangled_lang,
            libs: self.libs@.map_values(|lib: ParsedLibrary| lib@),
        }
    }
}

impl LangDetector {
    /// Creates a detector without libraries. `default_lang` is the language of
    /// the symbols that no library holds and whose name is not mangled,
    /// `default_mangled_lang` that of those whose name is mangled.
    pub fn new(default_lang: SymbolLang, default_mangled_lang: SymbolLang) -> (d: LangDetector)
        ensures
            d@ == (LangDetectorView {
                default_lang,
                default_mangled_lang,
                libs: Seq::empty(),
            }),
    {
        let d = LangDetector { default_lang, default_mangled_lang, libs: Vec::new() };
        proof {
            assert(d@.libs == Seq::<ParsedLibraryView>::empty());
        }
        d
    }

    /// The language of the symbols that no library holds and whose name is not
    /// mangled.
    pub fn default_lang(&self) -> (l: SymbolLang)
        ensures
            l == self@.default_lang,
    {
        self.default_lang
    }

    /// The language of the symbols that no library holds and whose name is
    /// mangled.
    pub fn default_mangled_lang(&self) -> (l: SymbolLang)
        ensures
            l == self@.default_mangled_lang,
    {
        self.default_mangled_lang
    }

    /// The libraries, in the order in which they are consulted.
    pub fn libs(&self) -> (libs: &Vec<ParsedLibrary>)
        ensures
            libs@.len() == self@.libs.len(),
            forall|i: int| 0 <= i < libs@.len() ==> (#[trigger] libs@[i])@ == self@.libs[i],
    {
        &self.libs
    }

    /// Reads the symbols of a library from its listing and adds them to the
    /// detector, to be consulted after the libraries added before.
    pub fn add_lib(&mut self, lib: &Library, listing: &Listing)
        ensures
            final(self)@ == old(self)@.with_lib(
                ParsedLibraryView {
                    lang: lib.lang,
                    syms: library_entries(lib.lang, listing.pairs()),
                },
            ),
    {
        let parsed = ParsedLibrary::build(lib.lang, listing);
        self.libs.push(parsed);
        proof {
            assert(final(self)@.libs == old(self)@.libs.push(parsed@));
        }
    }

    /// Attributes a symbol to the language it originates from: the language of
    /// the first library that holds a symbol related to it; if there is none,
    /// the default language where its name is not mangled, else the default
    /// language of mangled names.
    pub fn detect_symbol(&self, sym: Symbol) -> (r: Symbol)
        ensures
            r@ == self@.detect(sym@),
    {
        let ghost v = sym@;
        let mut found = sym;
        let mut i: usize = 0;
        while i < self.libs.len()
            invariant
                i <= self.libs.len(),
                v == sym@,
                found@ == v,
                self@.first_match(v, 0) == self@.first_match(v, i as int),
            decreases self.libs.len() - i,
        {
            assert(self@.libs[i as int] == self.libs@[i as int]@);
            if self.libs[i].holds_related(&found) {
                found.lang = self.libs[i].lang();
                return found;
            }
            i += 1;
        }
        if found.mangled == found.demangled {
            found.lang = self.default_lang;
        } else {
            found.lang = self.default_mangled_lang;
        }
        found
    }

    /// Puts the mangled and the demangled raw symbol of one entry together and
    /// attributes the symbol to a language, as [`LangDetector::detect_symbol`]
    /// does. Fails with `InvalidSymbol` unless the two agree in address, size
    /// and type.
    pub fn detect_rawsymbols(&self, mangled: RawSymbol, demangled: RawSymbol) -> (r: Result<
        Symbol,
        Error,
    >)
        ensures
            match combine(mangled@, demangled@) {
                Some(v) => r matches Ok(s) && s@ == self@.detect(v),
                None => r matches Err(e) && e.is_plain(ErrorKind::InvalidSymbol),
            },
    {
        match Symbol::from_rawsymbols(mangled, demangled) {
            Ok(sym) => Ok(self.detect_symbol(sym)),
            Err(e) => Err(e),
        }
    }

    /// Parses the mangled and the demangled line of one entry and attributes
    /// the symbol to a language, as [`LangDetector::detect_symbol`] does.
    /// Fails with `InvalidSymbol` unless both lines are well-formed and agree
    /// in address, size and type.
    pub fn detect(&self, mangled: &str, demangled: &str) -> (r: Result<Symbol, Error>)
        ensures
            match combine_lines(mangled@, demangled@) {
                Some(v) => r matches Ok(s) && s@ == self@.detect(v),
                None => r matches Err(e) && e.is_plain(ErrorKind::InvalidSymbol),
            },
    {
        match Symbol::from_lines(mangled, demangled) {
            Ok(sym) => Ok(self.detect_symbol(sym)),
            Err(e) => Err(e),
        }
    }
}

/// The first library that holds a related symbol decides: where library `i`
/// holds one and none before it does, the symbol is attributed to the language
/// of library `i`, whatever the libraries after it hold.
pub proof fn lemma_first_match_wins(d: LangDetectorView, sym: SymbolView, i: int)
    requires
        0 <= i < d.libs.len(),
        d.libs[i].holds_related(sym),
        forall|k: int| 0 <= k < i ==> !(#[trigger] d.libs[k]).holds_related(sym),
    ensures
        d.lang_of(sym) == d.libs[i].lang,
{
    lemma_first_match_from(d, sym, i, 0);
}

/// Where no library from `from` up to `i` holds a related symbol and library
/// `i` does, the search from `from` ends at `i`.
pub proof fn lemma_first_match_from(d: LangDetectorView, sym: SymbolView, i: int, from: int)
    requires
        0 <= from <= i < d.libs.len(),
        d.libs[i].holds_related(sym),
        forall|k: int| from <= k < i ==> !(#[trigger] d.libs[k]).holds_related(sym),
    ensures
        d.first_match(sym, from) == i,
    decreases i - from,
{
    if from < i {
        lemma_first_match_from(d, sym, i, from + 1);
    }
}

/// Where the first of two libraries holds a related symbol, the symbol is
/// attributed to its language, also where the second holds one too.
pub proof fn lemma_first_of_two_wins(
    d: LangDetectorView,
    first: ParsedLibraryView,
    second: ParsedLibraryView,
    sym: SymbolView,
)
    requires
        d.libs == seq![first, second],
        first.holds_related(sym),
    ensures
        d.lang_of(sym) == first.lang,
{
    lemma_first_match_wins(d, sym, 0);
}

/// Without libraries the names decide: a symbol whose name is not mangled is
/// attributed to the default language, any other to the default language of
/// mangled names.
pub proof fn lemma_fallback(d: LangDetectorView, sym: SymbolView)
    requires
        d.libs.len() == 0,
    ensures
        sym.mangled == sym.demangled ==> d.lang_of(sym) == d.default_lang,
        sym.mangled != sym.demangled ==> d.lang_of(sym) == d.default_mangled_lang,
{
}

/// Where no library holds a related symbol, the names decide as they do
/// without libraries.
pub proof fn lemma_no_match_falls_back(d: LangDetectorView, sym: SymbolView)
    requires
        forall|k: int| 0 <= k < d.libs.len() ==> !(#[trigger] d.libs[k]).holds_related(sym),
    ensures
        d.lang_of(sym) == d.fallback_lang(sym),
{
    lemma_no_match_from(d, sym, 0);
}

/// Where no library from `from` on holds a related symbol, the search from
/// `from` finds none.
pub proof fn lemma_no_match_from(d: LangDetectorView, sym: SymbolView, from: int)
    requires
        0 <= from <= d.libs.len(),
        forall|k: int| from <= k < d.libs.len() ==> !(#[trigger] d.libs[k]).holds_related(sym),
    ensures
        d.first_match(sym, from) == d.libs.len(),
    decreases d.libs.len() - from,
{
    if from < d.libs.len() {
        lemma_no_match_from(d, sym, from + 1);
    }
}

} // verus!
