//! The analysis of one binary: from its listing and those of its libraries to
//! the symbols with their languages, and to the reports on them.

use std::path::PathBuf;
use vstd::prelude::*;

use crate::detect::{
    library_entries, LangDetector, LangDetectorView, Library, Listing, ParsedLibraryView,
};
use crate::report::{
    selection, total_size, total_size_of, LangReport, LangReportView, SymbolReport, TotalMem,
    lemma_total_size_langs, lemma_total_size_regions,
};
use crate::sym::{combine_lines, MemoryRegion, Symbol, SymbolLang, SymbolView};

verus! {

/// Whether the sizes of the symbols never decrease along the sequence.
pub open spec fn is_sorted_by_size(syms: Seq<SymbolView>) -> bool {
    forall|i: int, j: int| 0 <= i <= j < syms.len() ==> syms[i].size <= syms[j].size
}

/// The symbols of the given size, in their order.
pub open spec fn of_size(syms: Seq<SymbolView>, size: u32) -> Seq<SymbolView> {
    syms.filter(|sym: SymbolView| sym.size == size)
}

/// Whether `sorted` holds the symbols of `syms` ordered by size, the smallest
/// first, with symbols of the same size in the order they have in `syms`.
pub open spec fn is_stable_sort(sorted: Seq<SymbolView>, syms: Seq<SymbolView>) -> bool {
    &&& sorted.len() == syms.len()
    &&& is_sorted_by_size(sorted)
    &&& forall|size: u32| of_size(sorted, size) == of_size(syms, size)
}

/// Orders symbols by size, the smallest first. Symbols of the same size keep
/// their order.
pub fn sort_by_size(syms: Vec<Symbol>) -> (sorted: Vec<Symbol>)
    ensures
        is_stable_sort(sorted.deep_view(), syms.deep_view()),
{
    let ghost input = syms.deep_view();
    let mut sorted: Vec<Symbol> = Vec::new();
    proof {
        reveal(Seq::filter);
        assert(input.take(0) == Seq::<SymbolView>::empty());
        assert(sorted.deep_view() == Seq::<SymbolView>::empty());
    }
    for sym in it: syms
        invariant
            it.seq() == syms@,
            input == syms.deep_view(),
            sorted.len() == it.index(),
            is_sorted_by_size(sorted.deep_view()),
            forall|size: u32|
                of_size(sorted.deep_view(), size) == of_size(input.take(it.index()), size),
    {
        let ghost before = sorted.deep_view();
        let ghost n = it.index();
        let mut at: usize = sorted.len();
        while at > 0 && sorted[at - 1].size > sym.size
            invariant
                at <= sorted.len(),
                before == sorted.deep_view(),
                is_sorted_by_size(before),
                forall|k: int| at <= k < before.len() ==> before[k].size > sym.size,
            decreases at,
        {
            at -= 1;
        }
        sorted.insert(at, sym);
        proof {
            let v = sym@;
            let after = sorted.deep_view();
            let head = before.take(at as int);
            let tail = before.skip(at as int);
            assert(after == before.insert(at as int, v));
            assert(after == head + seq![v] + tail);
            assert(before == head + tail);
            assert forall|i: int, j: int| 0 <= i <= j < after.len() implies after[i].size
                <= after[j].size by {
                if i < at && j > at {
                    assert(after[i] == before[i] && after[j] == before[j - 1]);
                } else if i < at && j < at {
                    assert(after[i] == before[i] && after[j] == before[j]);
                } else if i > at {
                    assert(after[i] == before[i - 1] && after[j] == before[j - 1]);
                } else if i == at && j > at {
                    assert(after[j] == before[j - 1]);
                } else if j == at && i < at {
                    assert(after[i] == before[i]);
                    if at > 0 {
                        assert(before[at - 1].size <= v.size);
                    }
                }
            }
            assert(input.take(n + 1).drop_last() == input.take(n));
            assert(input.take(n + 1).last() == v);
            assert forall|size: u32| of_size(after, size) == of_size(input.take(n + 1), size) by {
                let pred = |sym: SymbolView| sym.size == size;
                reveal(Seq::filter);
                Seq::filter_distributes_over_add(head, tail, pred);
                Seq::filter_distributes_over_add(head, seq![v], pred);
                Seq::filter_distributes_over_add(head + seq![v], tail, pred);
                assert(of_size(before, size) == of_size(input.take(n), size));
                assert(seq![v].drop_last() == Seq::<SymbolView>::empty());
                assert(seq![v].last() == v);
                assert(pred(v) == (v.size == size));
                assert(Seq::<SymbolView>::empty().filter(pred) == Seq::<SymbolView>::empty());
                if size == v.size {
                    lemma_none_of_size(tail, size);
                    assert(seq![v].filter(pred) == seq![v]);
                    assert(of_size(after, size) == head.filter(pred) + seq![v]);
                    assert(of_size(before, size) == head.filter(pred));
                } else {
                    assert(seq![v].filter(pred) == Seq::<SymbolView>::empty());
                    assert(of_size(after, size) == head.filter(pred) + tail.filter(pred));
                }
            }
        }
    }
    proof {
        assert(input.take(syms@.len() as int) == input);
    }
    sorted
}

/// Among symbols that are all larger than `size`, none is of that size.
proof fn lemma_none_of_size(syms: Seq<SymbolView>, size: u32)
    requires
        forall|k: int| 0 <= k < syms.len() ==> syms[k].size > size,
    ensures
        of_size(syms, size) == Seq::<SymbolView>::empty(),
    decreases syms.len(),
{
    reveal(Seq::filter);
    if syms.len() > 0 {
        lemma_none_of_size(syms.drop_last(), size);
    }
}

/// A symbol of the given size is in `syms` if and only if one is among the
/// symbols of that size.
proof fn lemma_of_size_holds(syms: Seq<SymbolView>, size: u32)
    ensures
        of_size(syms, size).len() > 0 <==> exists|i: int|
            0 <= i < syms.len() && (#[trigger] syms[i]).size == size,
        forall|i: int|
            0 <= i < of_size(syms, size).len() ==> (#[trigger] of_size(syms, size)[i]).size
                == size,
    decreases syms.len(),
{
    reveal(Seq::filter);
    if syms.len() > 0 {
        let rest = syms.drop_last();
        lemma_of_size_holds(rest, size);
        if syms.last().size == size {
            assert(syms[syms.len() - 1].size == size);
        } else if of_size(rest, size).len() > 0 {
            let i = choose|i: int| 0 <= i < rest.len() && (#[trigger] rest[i]).size == size;
            assert(syms[i].size == size);
        } else {
            assert forall|i: int| 0 <= i < syms.len() implies (#[trigger] syms[i]).size
                != size by {
                if i < rest.len() {
                    assert(rest[i] == syms[i]);
                }
            }
        }
    }
}

/// Two sequences that are ordered by size and hold the same symbols of each
/// size, in the same order, are the same sequence.
pub proof fn lemma_sorted_by_size_unique(a: Seq<SymbolView>, b: Seq<SymbolView>)
    requires
        a.len() == b.len(),
        is_sorted_by_size(a),
        is_sorted_by_size(b),
        forall|size: u32| of_size(a, size) == of_size(b, size),
    ensures
        a == b,
    decreases a.len(),
{
    reveal(Seq::filter);
    if a.len() > 0 {
        let x = a.last();
        let y = b.last();
        lemma_of_size_holds(a, x.size);
        lemma_of_size_holds(b, x.size);
        lemma_of_size_holds(a, y.size);
        lemma_of_size_holds(b, y.size);
        assert(a[a.len() - 1].size == x.size);
        assert(b[b.len() - 1].size == y.size);
        assert(x.size == y.size);
        assert(of_size(a, x.size).last() == x);
        assert(of_size(b, x.size).last() == y);
        assert(x == y);
        let a0 = a.drop_last();
        let b0 = b.drop_last();
        assert forall|size: u32| of_size(a0, size) == of_size(b0, size) by {
            assert(of_size(a, size) == of_size(b, size));
            if size == x.size {
                assert(of_size(a0, size) == of_size(a, size).drop_last());
                assert(of_size(b0, size) == of_size(b, size).drop_last());
            }
        }
        lemma_sorted_by_size_unique(a0, b0);
        assert(a == a0.push(x));
        assert(b == b0.push(y));
    }
}

/// Symbols have one stable order by size only.
pub proof fn lemma_stable_sort_unique(
    first: Seq<SymbolView>,
    second: Seq<SymbolView>,
    syms: Seq<SymbolView>,
)
    requires
        is_stable_sort(first, syms),
        is_stable_sort(second, syms),
    ensures
        first == second,
{
    assert forall|size: u32| of_size(first, size) == of_size(second, size) by {
        assert(of_size(first, size) == of_size(syms, size));
        assert(of_size(second, size) == of_size(syms, size));
    }
    lemma_sorted_by_size_unique(first, second);
}

/// The symbols that the pairs of lines of a binary's listing make, each with
/// the language that the detector attributes it to, in the order of the
/// listing.
pub open spec fn classified(d: LangDetectorView, pairs: Seq<(Seq<char>, Seq<char>)>) -> Seq<
    SymbolView,
> {
    pairs.filter_map(
        |pair: (Seq<char>, Seq<char>)|
            match combine_lines(pair.0, pair.1) {
                Some(sym) => Some(d.detect(sym)),
                None => None,
            },
    )
}

/// The pairs of lines that make no symbol, in the order of the listing.
pub open spec fn failed(pairs: Seq<(Seq<char>, Seq<char>)>) -> Seq<(Seq<char>, Seq<char>)> {
    pairs.filter(|pair: (Seq<char>, Seq<char>)| combine_lines(pair.0, pair.1) is None)
}

/// The detector that an analysis works with: the libraries in their order,
/// each with the symbols of its listing; C for the symbols that no library
/// holds and whose name is not mangled, C++ for those whose name is.
pub open spec fn detector_of(libs: Seq<Library>, listings: Seq<Listing>) -> LangDetectorView {
    LangDetectorView {
        default_lang: SymbolLang::C,
        default_mangled_lang: SymbolLang::Cpp,
        libs: Seq::new(
            libs.len(),
            |i: int|
                ParsedLibraryView {
                    lang: libs[i].lang,
                    syms: library_entries(libs[i].lang, listings[i].pairs()),
                },
        ),
    }
}

/// The analysis of one binary: the files involved, and, once the analysis has
/// run, the symbols of the binary and the lines that made none.
#[derive(Debug)]
pub struct Atlas {
    /// The path of the `nm` utility.
    pub nm: PathBuf,
    /// The path of the binary.
    pub elf: PathBuf,
    /// The static libraries that were linked into the binary.
    pub libs: Vec<Library>,
    /// The symbols of the binary with their languages, the smallest first.
    pub syms: Option<Vec<Symbol>>,
    /// The mangled and the demangled line of each entry that made no symbol.
    pub fails: Option<Vec<(String, String)>>,
}

impl Atlas {
    /// Creates an analysis of the binary `elf`, whose listings come from the
    /// utility `nm`. It has no libraries and has not run yet.
    pub fn new(nm: PathBuf, elf: PathBuf) -> (at: Atlas)
        ensures
            at.nm == nm,
            at.elf == elf,
            at.libs@.len() == 0,
            at.syms is None,
            at.fails is None,
    {
        Atlas { nm, elf, libs: Vec::new(), syms: None, fails: None }
    }

    /// Adds a static library, whose symbols are attributed to `lang`. The
    /// libraries are consulted in the order in which they were added.
    pub fn add_lib(&mut self, lang: SymbolLang, lib_path: PathBuf)
        ensures
            final(self).libs@ == old(self).libs@.push(Library { path: lib_path, lang }),
            final(self).nm == old(self).nm,
            final(self).elf == old(self).elf,
            final(self).syms == old(self).syms,
            final(self).fails == old(self).fails,
    {
        self.libs.push(Library::new(lang, lib_path));
    }

    /// Builds the detector of the analysis from the listings of the
    /// libraries, one for each library and in the same order.
    pub fn detector(&self, lib_listings: &Vec<Listing>) -> (d: LangDetector)
        requires
            lib_listings@.len() == self.libs@.len(),
        ensures
            d@ == detector_of(self.libs@, lib_listings@),
    {
        let mut d = LangDetector::new(SymbolLang::C, SymbolLang::Cpp);
        let mut i: usize = 0;
        while i < self.libs.len()
            invariant
                i <= self.libs.len(),
                lib_listings@.len() == self.libs@.len(),
                d@.default_lang == SymbolLang::C,
                d@.default_mangled_lang == SymbolLang::Cpp,
                d@.libs == detector_of(self.libs@, lib_listings@).libs.take(i as int),
            decreases self.libs.len() - i,
        {
            d.add_lib(&self.libs[i], &lib_listings[i]);
            proof {
                let all = detector_of(self.libs@, lib_listings@).libs;
                assert(all.take(i + 1) == all.take(i as int).push(all[i as int]));
            }
            i += 1;
        }
        proof {
            let all = detector_of(self.libs@, lib_listings@).libs;
            assert(all.take(self.libs@.len() as int) == all);
        }
        d
    }

    /// Runs the analysis on the listing of the binary and the listings of the
    /// libraries, one for each library and in the same order. Afterwards
    /// `syms` holds the symbols of the binary with their languages, ordered by
    /// size, and `fails` the pairs of lines that made no symbol.
    pub fn analyze(&mut self, lib_listings: &Vec<Listing>, elf_listing: &Listing)
        requires
            lib_listings@.len() == old(self).libs@.len(),
        ensures
            final(self).nm == old(self).nm,
            final(self).elf == old(self).elf,
            final(self).libs == old(self).libs,
            final(self).syms matches Some(syms) && is_stable_sort(
                syms.deep_view(),
                classified(detector_of(old(self).libs@, lib_listings@), elf_listing.pairs()),
            ),
            final(self).fails matches Some(fails) && fails.deep_view() == failed(
                elf_listing.pairs(),
            ),
    {
        let detector = self.detector(lib_listings);
        let n = elf_listing.len();
        let ghost pairs = elf_listing.pairs();
        let ghost d = detector@;
        let ghost classify = |pair: (Seq<char>, Seq<char>)|
            match combine_lines(pair.0, pair.1) {
                Some(sym) => Some(d.detect(sym)),
                None => None,
            };
        let ghost fail = |pair: (Seq<char>, Seq<char>)| combine_lines(pair.0, pair.1) is None;
        let mut syms: Vec<Symbol> = Vec::new();
        let mut fails: Vec<(String, String)> = Vec::new();
        let mut i: usize = 0;
        proof {
            reveal(Seq::filter);
            assert(pairs.take(0).filter_map(classify) == Seq::<SymbolView>::empty());
            assert(syms.deep_view() == Seq::<SymbolView>::empty());
            assert(pairs.take(0).filter(fail) == Seq::<(Seq<char>, Seq<char>)>::empty());
            assert(fails.deep_view() == Seq::<(Seq<char>, Seq<char>)>::empty());
        }
        while i < n
            invariant
                i <= n,
                n == pairs.len(),
                n <= elf_listing.mangled.len(),
                n <= elf_listing.demangled.len(),
                pairs == elf_listing.pairs(),
                d == detector@,
                classify == |pair: (Seq<char>, Seq<char>)|
                    match combine_lines(pair.0, pair.1) {
                        Some(sym) => Some(d.detect(sym)),
                        None => None,
                    },
                fail == |pair: (Seq<char>, Seq<char>)| combine_lines(pair.0, pair.1) is None,
                syms.deep_view() == pairs.take(i as int).filter_map(classify),
                fails.deep_view() == pairs.take(i as int).filter(fail),
            decreases n - i,
        {
            let ghost syms_before = syms.deep_view();
            let ghost fails_before = fails.deep_view();
            let mangled = &elf_listing.mangled[i];
            let demangled = &elf_listing.demangled[i];
            proof {
                reveal(Seq::filter);
                pairs.lemma_filter_map_take_succ(classify, i as int);
                assert(pairs[i as int] == (mangled@, demangled@));
                assert(pairs.take(i + 1).drop_last() == pairs.take(i as int));
                assert(pairs.take(i + 1).last() == pairs[i as int]);
                assert(fail(pairs[i as int]) == (combine_lines(mangled@, demangled@) is None));
            }
            match detector.detect(mangled.as_str(), demangled.as_str()) {
                Ok(sym) => {
                    let ghost v = sym@;
                    syms.push(sym);
                    proof {
                        assert(syms.deep_view() == syms_before + seq![v]);
                    }
                },
                Err(_) => {
                    let pair = (mangled.clone(), demangled.clone());
                    fails.push(pair);
                    proof {
                        assert(fails.deep_view() == fails_before.push((mangled@, demangled@)));
                    }
                },
            }
            i += 1;
        }
        proof {
            assert(pairs.take(n as int) == pairs);
        }
        self.syms = Some(sort_by_size(syms));
        self.fails = Some(fails);
    }

    /// Reports the memory usage of C, C++ and Rust in ROM and in RAM, or
    /// `None` where the analysis has not run. The sizes of the symbols must
    /// add up to no more than 64 bits hold.
    pub fn report_lang(&self) -> (r: Option<LangReport>)
        requires
            self.syms matches Some(syms) ==> total_size(
                syms.deep_view(),
                SymbolLang::Any,
                MemoryRegion::Both,
            ) <= u64::MAX,
        ensures
            match self.syms {
                Some(syms) => r matches Some(report) && report@ == LangReportView::of(
                    syms.deep_view(),
                ),
                None => r is None,
            },
    {
        let syms = match &self.syms {
            Some(syms) => syms,
            None => {
                return None;
            },
        };
        proof {
            let views = syms.deep_view();
            lemma_total_size_langs(views, MemoryRegion::Rom);
            lemma_total_size_langs(views, MemoryRegion::Ram);
            lemma_total_size_regions(views, SymbolLang::Any);
        }
        let c = TotalMem::new(
            total_size_of(syms, SymbolLang::C, MemoryRegion::Rom),
            total_size_of(syms, SymbolLang::C, MemoryRegion::Ram),
        );
        let cpp = TotalMem::new(
            total_size_of(syms, SymbolLang::Cpp, MemoryRegion::Rom),
            total_size_of(syms, SymbolLang::Cpp, MemoryRegion::Ram),
        );
        let rust = TotalMem::new(
            total_size_of(syms, SymbolLang::Rust, MemoryRegion::Rom),
            total_size_of(syms, SymbolLang::Rust, MemoryRegion::Ram),
        );
        Some(LangReport::new(c, cpp, rust))
    }

    /// Reports the symbols of the listed languages in the given memory
    /// region, the largest first and `max_count` of them at most, or `None`
    /// where the analysis has not run. `SymbolLang::Any` in the list selects
    /// every language, `MemoryRegion::Both` every region.
    pub fn report_syms(
        &self,
        lang: Vec<SymbolLang>,
        mem_region: MemoryRegion,
        max_count: Option<usize>,
    ) -> (r: Option<SymbolReport<'_>>)
        ensures
            match self.syms {
                Some(syms) => r matches Some(report) && report@ == selection(
                    syms.deep_view(),
                    lang@,
                    mem_region,
                    max_count,
                ),
                None => r is None,
            },
    {
        match &self.syms {
            Some(syms) => Some(SymbolReport::select(syms, &lang, mem_region, max_count)),
            None => None,
        }
    }
}

} // verus!
