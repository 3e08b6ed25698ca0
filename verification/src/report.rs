//! Reports on the memory usage of the languages and on the size of single
//! symbols.

use vstd::prelude::*;

use crate::sym::{MemoryRegion, Symbol, SymbolLang, SymbolView};

verus! {

/// Whether a symbol counts towards the total of a language and a memory
/// region. `SymbolLang::Any` stands for every language, `MemoryRegion::Both`
/// for ROM and RAM together. A symbol whose region is unknown counts nowhere.
pub open spec fn counts_for(sym: SymbolView, lang: SymbolLang, region: MemoryRegion) -> bool {
    &&& lang == SymbolLang::Any || sym.lang == lang
    &&& match region {
        MemoryRegion::Both => sym.sym_type.spec_mem_region() != MemoryRegion::Unknown,
        MemoryRegion::Unknown => false,
        _ => sym.sym_type.spec_mem_region() == region,
    }
}

/// The sum of the sizes of the symbols that count towards a language and a
/// memory region.
pub open spec fn total_size(syms: Seq<SymbolView>, lang: SymbolLang, region: MemoryRegion) -> nat
    decreases syms.len(),
{
    if syms.len() == 0 {
        0
    } else {
        total_size(syms.drop_last(), lang, region) + if counts_for(syms.last(), lang, region) {
            syms.last().size as nat
        } else {
            0
        }
    }
}

/// Whether every symbol is attributed to one of the languages, none to
/// `SymbolLang::Any`.
pub open spec fn all_classified(syms: Seq<SymbolView>) -> bool {
    forall|i: int| 0 <= i < syms.len() ==> (#[trigger] syms[i]).lang != SymbolLang::Any
}

/// The languages share the memory among them: over symbols that are all
/// attributed to a language, the total of every language is the sum of the
/// totals of C, C++ and Rust, in each memory region.
pub proof fn lemma_total_size_additive(syms: Seq<SymbolView>, region: MemoryRegion)
    requires
        all_classified(syms),
    ensures
        total_size(syms, SymbolLang::Any, region) == total_size(syms, SymbolLang::C, region)
            + total_size(syms, SymbolLang::Cpp, region) + total_size(
            syms,
            SymbolLang::Rust,
            region,
        ),
    decreases syms.len(),
{
    if syms.len() > 0 {
        assert(syms.last() == syms[syms.len() - 1]);
        assert forall|i: int| 0 <= i < syms.drop_last().len() implies (
        #[trigger] syms.drop_last()[i]).lang != SymbolLang::Any by {
            assert(syms.drop_last()[i] == syms[i]);
        }
        lemma_total_size_additive(syms.drop_last(), region);
    }
}

/// The regions share the memory among them: the total of both regions is the
/// sum of the totals of ROM and RAM, for each language.
pub proof fn lemma_total_size_regions(syms: Seq<SymbolView>, lang: SymbolLang)
    ensures
        total_size(syms, lang, MemoryRegion::Both) == total_size(syms, lang, MemoryRegion::Rom)
            + total_size(syms, lang, MemoryRegion::Ram),
        total_size(syms, lang, MemoryRegion::Unknown) == 0,
    decreases syms.len(),
{
    if syms.len() > 0 {
        lemma_total_size_regions(syms.drop_last(), lang);
    }
}

/// The totals of C, C++ and Rust together do not exceed the total of every
/// language.
pub proof fn lemma_total_size_langs(syms: Seq<SymbolView>, region: MemoryRegion)
    ensures
        total_size(syms, SymbolLang::C, region) + total_size(syms, SymbolLang::Cpp, region)
            + total_size(syms, SymbolLang::Rust, region) <= total_size(
            syms,
            SymbolLang::Any,
            region,
        ),
    decreases syms.len(),
{
    if syms.len() > 0 {
        lemma_total_size_langs(syms.drop_last(), region);
    }
}

/// A total over the first symbols does not exceed the total over all.
pub proof fn lemma_total_size_prefix(
    syms: Seq<SymbolView>,
    n: int,
    lang: SymbolLang,
    region: MemoryRegion,
)
    requires
        0 <= n <= syms.len(),
    ensures
        total_size(syms.take(n), lang, region) <= total_size(syms, lang, region),
    decreases syms.len() - n,
{
    if n < syms.len() {
        assert(syms.drop_last().take(n) == syms.take(n));
        lemma_total_size_prefix(syms.drop_last(), n, lang, region);
    } else {
        assert(syms.take(n) == syms);
    }
}

/// No total exceeds the number of the symbols times the largest size that a
/// symbol can have.
pub proof fn lemma_total_size_bound(syms: Seq<SymbolView>, lang: SymbolLang, region: MemoryRegion)
    ensures
        total_size(syms, lang, region) <= syms.len() * 0xffff_ffff,
    decreases syms.len(),
{
    if syms.len() > 0 {
        lemma_total_size_bound(syms.drop_last(), lang, region);
    }
}

/// The memory that one language uses in ROM and in RAM, in bytes.
#[derive(Debug, Default, Clone, Copy, PartialEq, Eq)]
pub struct TotalMem {
    pub rom: u64,
    pub ram: u64,
}

impl TotalMem {
    /// Creates an instance from the sizes in ROM and in RAM, in bytes.
    pub fn new(rom: u64, ram: u64) -> (m: TotalMem)
        ensures
            m.rom == rom,
            m.ram == ram,
    {
        TotalMem { rom, ram }
    }

    /// The sum of two usages, region by region.
    pub fn add(self, other: TotalMem) -> (m: TotalMem)
        requires
            self.rom + other.rom <= u64::MAX,
            self.ram + other.ram <= u64::MAX,
        ensures
            m.rom == self.rom + other.rom,
            m.ram == self.ram + other.ram,
    {
        TotalMem { rom: self.rom + other.rom, ram: self.ram + other.ram }
    }
}

/// What a [`LangReport`] holds.
pub struct LangReportView {
    pub c: TotalMem,
    pub cpp: TotalMem,
    pub rust: TotalMem,
}

impl LangReportView {
    /// The memory that a language uses; for `SymbolLang::Any`, what the three
    /// languages use together.
    pub open spec fn mem(self, lang: SymbolLang) -> (nat, nat) {
        match lang {
            SymbolLang::C => (self.c.rom as nat, self.c.ram as nat),
            SymbolLang::Cpp => (self.cpp.rom as nat, self.cpp.ram as nat),
            SymbolLang::Rust => (self.rust.rom as nat, self.rust.ram as nat),
            SymbolLang::Any => (
                (self.c.rom + self.cpp.rom + self.rust.rom) as nat,
                (self.c.ram + self.cpp.ram + self.rust.ram) as nat,
            ),
        }
    }

    /// The size in bytes of a language in a memory region. Nothing is stored
    /// in the region `Unknown`.
    pub open spec fn size(self, lang: SymbolLang, region: MemoryRegion) -> nat {
        match region {
            MemoryRegion::Rom => self.mem(lang).0,
            MemoryRegion::Ram => self.mem(lang).1,
            MemoryRegion::Both => self.mem(lang).0 + self.mem(lang).1,
            MemoryRegion::Unknown => 0,
        }
    }

    /// Whether every size fits into 64 bits.
    pub open spec fn wf(self) -> bool {
        self.size(SymbolLang::Any, MemoryRegion::Both) <= u64::MAX
    }

    /// The report on the given symbols.
    pub open spec fn of(syms: Seq<SymbolView>) -> LangReportView {
        LangReportView {
            c: TotalMem {
                rom: total_size(syms, SymbolLang::C, MemoryRegion::Rom) as u64,
                ram: total_size(syms, SymbolLang::C, MemoryRegion::Ram) as u64,
            },
            cpp: TotalMem {
                rom: total_size(syms, SymbolLang::Cpp, MemoryRegion::Rom) as u64,
                ram: total_size(syms, SymbolLang::Cpp, MemoryRegion::Ram) as u64,
            },
            rust: TotalMem {
                rom: total_size(syms, SymbolLang::Rust, MemoryRegion::Rom) as u64,
                ram: total_size(syms, SymbolLang::Rust, MemoryRegion::Ram) as u64,
            },
        }
    }
}

/// In a report the languages share the memory among them: the size of every
/// language is the sum of the sizes of C, C++ and Rust, in each memory region.
pub proof fn lemma_report_additive(report: LangReportView, region: MemoryRegion)
    ensures
        report.size(SymbolLang::Any, region) == report.size(SymbolLang::C, region) + report.size(
            SymbolLang::Cpp,
            region,
        ) + report.size(SymbolLang::Rust, region),
{
}

/// The report on symbols whose sizes add up to no more than 64 bits hold
/// gives, for each language and region, the total of the symbols that count
/// towards them. For `SymbolLang::Any` this is so where every symbol is
/// attributed to a language.
pub proof fn lemma_report_sizes(syms: Seq<SymbolView>, lang: SymbolLang, region: MemoryRegion)
    requires
        total_size(syms, SymbolLang::Any, MemoryRegion::Both) <= u64::MAX,
        lang != SymbolLang::Any || all_classified(syms),
    ensures
        LangReportView::of(syms).wf(),
        LangReportView::of(syms).size(lang, region) == total_size(syms, lang, region),
{
    lemma_total_size_langs(syms, MemoryRegion::Rom);
    lemma_total_size_langs(syms, MemoryRegion::Ram);
    lemma_total_size_regions(syms, SymbolLang::Any);
    lemma_total_size_regions(syms, lang);
    if lang == SymbolLang::Any {
        lemma_total_size_additive(syms, MemoryRegion::Rom);
        lemma_total_size_additive(syms, MemoryRegion::Ram);
    }
}

/// Sums up the sizes of the symbols that count towards a language and a
/// memory region.
pub fn total_size_of(syms: &Vec<Symbol>, lang: SymbolLang, region: MemoryRegion) -> (total: u64)
    requires
        total_size(syms.deep_view(), lang, region) <= u64::MAX,
    ensures
        total == total_size(syms.deep_view(), lang, region),
{
    let ghost views = syms.deep_view();
    let mut total: u64 = 0;
    let mut i: usize = 0;
    proof {
        assert(views.take(0).len() == 0);
    }
    while i < syms.len()
        invariant
            i <= syms.len(),
            views == syms.deep_view(),
            total == total_size(views.take(i as int), lang, region),
            total_size(views, lang, region) <= u64::MAX,
        decreases syms.len() - i,
    {
        proof {
            assert(views.take(i + 1).drop_last() == views.take(i as int));
            assert(views.take(i + 1).last() == syms@[i as int]@);
            lemma_total_size_prefix(views, i + 1, lang, region);
        }
        let sym = &syms[i];
        let in_lang = match lang {
            SymbolLang::Any => true,
            _ => sym.lang == lang,
        };
        let in_region = match region {
            MemoryRegion::Both => sym.sym_type.mem_region() != MemoryRegion::Unknown,
            MemoryRegion::Unknown => false,
            _ => sym.sym_type.mem_region() == region,
        };
        if in_lang && in_region {
            total = total + sym.size as u64;
        }
        i += 1;
    }
    proof {
        assert(views.take(syms.len() as int) == views);
    }
    total
}

/// The place of a language in the order in which a report lists languages
/// of the same size.
pub open spec fn rank(lang: SymbolLang) -> int {
    match lang {
        SymbolLang::C => 0,
        SymbolLang::Cpp => 1,
        SymbolLang::Rust => 2,
        SymbolLang::Any => 3,
    }
}

impl LangReportView {
    /// Whether `r` lists C, C++ and Rust with their sizes in the region, the
    /// largest first, and languages of the same size in the order C, C++, Rust.
    pub open spec fn is_ranking(self, region: MemoryRegion, r: Seq<(SymbolLang, u64)>) -> bool {
        &&& r.len() == 3
        &&& forall|i: int|
            0 <= i < 3 ==> (#[trigger] r[i]).0 != SymbolLang::Any && r[i].1 == self.size(
                r[i].0,
                region,
            )
        &&& forall|i: int, j: int|
            0 <= i < j < 3 ==> (#[trigger] r[i]).1 > (#[trigger] r[j]).1 || (r[i].1 == r[j].1
                && rank(r[i].0) < rank(r[j].0))
    }
}

/// A report has one ranking only in each region.
pub proof fn lemma_ranking_unique(
    report: LangReportView,
    region: MemoryRegion,
    r1: Seq<(SymbolLang, u64)>,
    r2: Seq<(SymbolLang, u64)>,
)
    requires
        report.is_ranking(region, r1),
        report.is_ranking(region, r2),
    ensures
        r1 == r2,
{
    assert(r1[0].0 == r2[0].0 && r1[1].0 == r2[1].0 && r1[2].0 == r2[2].0) by {
        let _ = (r1[0], r1[1], r1[2], r2[0], r2[1], r2[2]);
    }
    assert(r1 =~= r2);
}

/// The memory usage of C, C++ and Rust in ROM and in RAM.
#[derive(Debug, Clone, Copy, PartialEq)]
pub struct LangReport {
    c: TotalMem,
    cpp: TotalMem,
    rust: TotalMem,
}

impl View for LangReport {
    type V = LangReportView;

    closed spec fn view(&self) -> LangReportView {
        LangReportView { c: self.c, cpp: self.cpp, rust: self.rust }
    }
}

impl LangReport {
    #[verifier::type_invariant]
    spec fn inv(&self) -> bool {
        self@.wf()
    }

    /// Creates a report from the memory usage of the three languages. All of
    /// it together must fit into 64 bits.
    pub fn new(c: TotalMem, cpp: TotalMem, rust: TotalMem) -> (r: LangReport)
        requires
            (LangReportView { c, cpp, rust }).wf(),
        ensures
            r@ == (LangReportView { c, cpp, rust }),
    {
        LangReport { c, cpp, rust }
    }

    /// The size in bytes of a language in a memory region. `SymbolLang::Any`
    /// stands for the three languages together, `MemoryRegion::Both` for ROM
    /// and RAM together; in the region `Unknown` nothing is stored.
    pub fn size(&self, lang: SymbolLang, mem_region: MemoryRegion) -> (size: u64)
        ensures
            size == self@.size(lang, mem_region),
            self@.wf(),
    {
        proof {
            use_type_invariant(self);
        }
        let (rom, ram) = match lang {
            SymbolLang::C => (self.c.rom, self.c.ram),
            SymbolLang::Cpp => (self.cpp.rom, self.cpp.ram),
            SymbolLang::Rust => (self.rust.rom, self.rust.ram),
            SymbolLang::Any => (
                self.c.rom + self.cpp.rom + self.rust.rom,
                self.c.ram + self.cpp.ram + self.rust.ram,
            ),
        };
        match mem_region {
            MemoryRegion::Rom => rom,
            MemoryRegion::Ram => ram,
            MemoryRegion::Both => rom + ram,
            MemoryRegion::Unknown => 0,
        }
    }

    /// Lists C, C++ and Rust with their sizes in the region, the largest
    /// first. Languages of the same size come in the order C, C++, Rust.
    pub fn iter_region(&self, mem_region: MemoryRegion) -> (r: Vec<(SymbolLang, u64)>)
        ensures
            self@.is_ranking(mem_region, r@),
    {
        let c = (SymbolLang::C, self.size(SymbolLang::C, mem_region));
        let cpp = (SymbolLang::Cpp, self.size(SymbolLang::Cpp, mem_region));
        let rust = (SymbolLang::Rust, self.size(SymbolLang::Rust, mem_region));
        let mut r: Vec<(SymbolLang, u64)> = Vec::new();
        if cpp.1 > c.1 {
            r.push(cpp);
            r.push(c);
        } else {
            r.push(c);
            r.push(cpp);
        }
        if rust.1 > r[0].1 {
            r.insert(0, rust);
        } else if rust.1 > r[1].1 {
            r.insert(1, rust);
        } else {
            r.push(rust);
        }
        r
    }
}

/// Whether a symbol is selected by a list of languages and a memory region.
/// `SymbolLang::Any` in the list selects every language, `MemoryRegion::Both`
/// every region.
pub open spec fn is_selected(sym: SymbolView, langs: Seq<SymbolLang>, region: MemoryRegion) -> bool {
    &&& langs.contains(SymbolLang::Any) || langs.contains(sym.lang)
    &&& region == MemoryRegion::Both || sym.sym_type.spec_mem_region() == region
}

/// The symbols that a list of languages and a memory region select, the last
/// of `syms` first, and no more than `max_count` of them where that is given.
pub open spec fn selection(
    syms: Seq<SymbolView>,
    langs: Seq<SymbolLang>,
    region: MemoryRegion,
    max_count: Option<usize>,
) -> Seq<SymbolView> {
    let all = syms.reverse().filter(|sym: SymbolView| is_selected(sym, langs, region));
    match max_count {
        Some(n) => if n < all.len() {
            all.take(n as int)
        } else {
            all
        },
        None => all,
    }
}

/// What a filter keeps of the first `n` items is the start of what it keeps
/// of all.
pub proof fn lemma_filter_take<A>(s: Seq<A>, pred: spec_fn(A) -> bool, n: int)
    requires
        0 <= n <= s.len(),
    ensures
        s.take(n).filter(pred).len() <= s.filter(pred).len(),
        s.take(n).filter(pred) == s.filter(pred).take(s.take(n).filter(pred).len() as int),
{
    assert(s == s.take(n) + s.skip(n));
    Seq::filter_distributes_over_add(s.take(n), s.skip(n), pred);
}

/// Whether `lang` is in the list.
pub fn lang_listed(langs: &Vec<SymbolLang>, lang: SymbolLang) -> (r: bool)
    ensures
        r == langs@.contains(lang),
{
    let mut i: usize = 0;
    while i < langs.len()
        invariant
            i <= langs.len(),
            forall|k: int| 0 <= k < i ==> langs@[k] != lang,
        decreases langs.len() - i,
    {
        if langs[i] == lang {
            return true;
        }
        i += 1;
    }
    false
}

/// A list of symbols, made for showing them in a table.
#[derive(Debug, PartialEq)]
pub struct SymbolReport<'a> {
    syms: Vec<&'a Symbol>,
}

impl<'a> View for SymbolReport<'a> {
    type V = Seq<SymbolView>;

    closed spec fn view(&self) -> Seq<SymbolView> {
        self.syms.deep_view()
    }
}

impl<'a> SymbolReport<'a> {
    /// Creates a report on the given symbols, in the given order.
    pub fn new(syms: Vec<&'a Symbol>) -> (r: SymbolReport<'a>)
        ensures
            r@ == syms.deep_view(),
    {
        SymbolReport { syms }
    }

    /// Selects symbols for a report: those of the listed languages in the
    /// given memory region, starting from the end of `syms`, `max_count` of
    /// them at most. `SymbolLang::Any` in the list selects every language,
    /// `MemoryRegion::Both` every region.
    pub fn select(
        syms: &'a Vec<Symbol>,
        langs: &Vec<SymbolLang>,
        mem_region: MemoryRegion,
        max_count: Option<usize>,
    ) -> (r: SymbolReport<'a>)
        ensures
            r@ == selection(syms.deep_view(), langs@, mem_region, max_count),
    {
        let ghost rev = syms.deep_view().reverse();
        let ghost pred = |sym: SymbolView| is_selected(sym, langs@, mem_region);
        let limit = match max_count {
            Some(n) => n,
            None => usize::MAX,
        };
        let any = lang_listed(langs, SymbolLang::Any);
        let mut out: Vec<&'a Symbol> = Vec::new();
        let mut i: usize = syms.len();
        proof {
            assert(rev.take(0).filter(pred) == Seq::<SymbolView>::empty());
            assert(out.deep_view() == Seq::<SymbolView>::empty());
        }
        while i > 0 && out.len() < limit
            invariant
                i <= syms.len(),
                rev == syms.deep_view().reverse(),
                pred == |sym: SymbolView| is_selected(sym, langs@, mem_region),
                any == langs@.contains(SymbolLang::Any),
                out.deep_view() == rev.take(syms.len() - i).filter(pred),
                out.len() <= limit,
            decreases i,
        {
            i -= 1;
            let sym = &syms[i];
            let ghost before = out.deep_view();
            proof {
                let n = syms.len() - i;
                reveal(Seq::filter);
                assert(rev.take(n).drop_last() == rev.take(n - 1));
                assert(rev.take(n).last() == sym@);
                assert(pred(sym@) == is_selected(sym@, langs@, mem_region));
            }
            if (any || lang_listed(langs, sym.lang)) && (mem_region == MemoryRegion::Both
                || sym.sym_type.mem_region() == mem_region) {
                out.push(sym);
                proof {
                    assert(out.deep_view() == before.push(sym@));
                }
            }
        }
        proof {
            let all = rev.filter(pred);
            lemma_filter_take(rev, pred, syms.len() - i);
            rev.lemma_filter_len(pred);
            if i == 0 {
                assert(rev.take(syms.len() as int) == rev);
            }
            assert(out.deep_view() == selection(syms.deep_view(), langs@, mem_region, max_count));
        }
        SymbolReport { syms: out }
    }

    /// The number of symbols in the report.
    pub fn len(&self) -> (n: usize)
        ensures
            n == self@.len(),
    {
        self.syms.len()
    }

    /// The symbol at place `i` of the report.
    pub fn get(&self, i: usize) -> (sym: &'a Symbol)
        requires
            i < self@.len(),
        ensures
            sym@ == self@[i as int],
    {
        self.syms[i]
    }

    /// The symbols of the report, in its order.
    pub fn symbols(&self) -> (syms: &Vec<&'a Symbol>)
        ensures
            syms.deep_view() == self@,
    {
        &self.syms
    }

    /// Starts a pass over the symbols of the report. The report can be passed
    /// over any number of times.
    pub fn into_iter<'r>(&'r self) -> (iter: SymbolReportIter<'a, 'r>)
        ensures
            iter.remaining() == self@,
    {
        let iter = SymbolReportIter { syms: &self.syms, pos: 0 };
        proof {
            assert(self@.skip(0) == self@);
        }
        iter
    }
}

/// A pass over the symbols of a [`SymbolReport`].
#[derive(Debug)]
pub struct SymbolReportIter<'a, 'r> {
    syms: &'r Vec<&'a Symbol>,
    pos: usize,
}

impl<'a, 'r> SymbolReportIter<'a, 'r> {
    #[verifier::type_invariant]
    spec fn inv(&self) -> bool {
        self.pos <= self.syms@.len()
    }

    /// The symbols that the pass has not come to yet.
    pub closed spec fn remaining(&self) -> Seq<SymbolView> {
        self.syms.deep_view().skip(self.pos as int)
    }

    /// The next symbol of the report, or `None` at its end.
    pub fn next(&mut self) -> (r: Option<&'a Symbol>)
        ensures
            match r {
                Some(sym) => old(self).remaining().len() > 0 && sym@ == old(self).remaining()[0]
                    && final(self).remaining() == old(self).remaining().drop_first(),
                None => old(self).remaining().len() == 0 && final(self).remaining() == old(
                    self,
                ).remaining(),
            },
    {
        proof {
            use_type_invariant(&*self);
        }
        if self.pos < self.syms.len() {
            let sym = self.syms[self.pos];
            proof {
                assert(self.syms.deep_view().skip(self.pos as int).drop_first()
                    == self.syms.deep_view().skip(self.pos + 1));
            }
            self.pos += 1;
            Some(sym)
        } else {
            None
        }
    }
}

} // verus!
