//! The format of one line of a symbol listing:
//!
//! ```text
//! <address> <size> <tag> <name>
//! ```
//!
//! Address and size are words of eight hexadecimal digits, the tag is a single
//! character, and the name is the rest of the line. The fields are separated by
//! whitespace; whitespace around the line is ignored. The name may hold
//! whitespace itself, but no line feed.

use vstd::prelude::*;

use crate::sym::{RawSymbolView, SymbolType};
use crate::text::{
    all_spaces, hex_digit, hex_digit_value, hex_value, is_hex_digit, is_space, is_whitespace,
    no_spaces,
};

verus! {

/// The index of the first character at or after `i` that is no whitespace, or
/// the length of `s` if there is none.
pub open spec fn spaces_end(s: Seq<char>, i: int) -> int
    decreases s.len() - i,
{
    if 0 <= i < s.len() && is_space(s[i]) {
        spaces_end(s, i + 1)
    } else {
        i
    }
}

/// The index of the first whitespace character at or after `i`, or the length
/// of `s` if there is none.
pub open spec fn token_end(s: Seq<char>, i: int) -> int
    decreases s.len() - i,
{
    if 0 <= i < s.len() && !is_space(s[i]) {
        token_end(s, i + 1)
    } else {
        i
    }
}

/// The length of `s` without its trailing whitespace.
pub open spec fn trimmed_len(s: Seq<char>) -> int
    decreases s.len(),
{
    if s.len() > 0 && is_space(s.last()) {
        trimmed_len(s.drop_last())
    } else {
        s.len() as int
    }
}

/// Whether `w` is a word of eight hexadecimal digits.
pub open spec fn is_hex_word(w: Seq<char>) -> bool {
    w.len() == 8 && forall|i: int| 0 <= i < w.len() ==> is_hex_digit(#[trigger] w[i])
}

/// Whether `n` can be the name field of a line: it is not empty, neither
/// starts nor ends with whitespace, and holds no line feed.
pub open spec fn is_name(n: Seq<char>) -> bool {
    &&& n.len() > 0
    &&& !is_space(n.first())
    &&& !is_space(n.last())
    &&& !n.contains('\n')
}

/// Where the four fields of a line lie: each field by the index of its first
/// character and the index after its last.
pub struct Layout {
    pub addr: (int, int),
    pub size: (int, int),
    pub tag: (int, int),
    pub name: (int, int),
}

/// The layout of `s`: the first three fields are the first three runs of
/// characters other than whitespace, the name is what follows up to the last
/// such character.
pub open spec fn layout(s: Seq<char>) -> Layout {
    let a0 = spaces_end(s, 0);
    let a1 = token_end(s, a0);
    let b0 = spaces_end(s, a1);
    let b1 = token_end(s, b0);
    let t0 = spaces_end(s, b1);
    let t1 = token_end(s, t0);
    let n0 = spaces_end(s, t1);
    let n1 = trimmed_len(s);
    Layout { addr: (a0, a1), size: (b0, b1), tag: (t0, t1), name: (n0, n1) }
}

/// The symbol that the line `s` describes, if it is a well-formed line.
pub open spec fn parse_line(s: Seq<char>) -> Option<RawSymbolView> {
    let l = layout(s);
    let addr = s.subrange(l.addr.0, l.addr.1);
    let size = s.subrange(l.size.0, l.size.1);
    if is_hex_word(addr) && is_hex_word(size) && l.tag.1 - l.tag.0 == 1
        && SymbolType::spec_from_tag(s[l.tag.0]) is Some && l.name.0 < l.name.1 && !s.subrange(
        l.name.0,
        l.name.1,
    ).contains('\n') {
        Some(
            RawSymbolView {
                addr: hex_value(addr) as u32,
                size: hex_value(size) as u32,
                sym_type: SymbolType::spec_from_tag(s[l.tag.0])->0,
                name: s.subrange(l.name.0, l.name.1),
            },
        )
    } else {
        None
    }
}

/// 16 to the power of `n`.
pub open spec fn pow16(n: nat) -> nat
    decreases n,
{
    if n == 0 {
        1
    } else {
        16 * pow16((n - 1) as nat)
    }
}

/// The bounds of what `spaces_end` returns.
pub proof fn lemma_spaces_end_bounds(s: Seq<char>, i: int)
    requires
        0 <= i <= s.len(),
    ensures
        i <= spaces_end(s, i) <= s.len(),
    decreases s.len() - i,
{
    if i < s.len() && is_space(s[i]) {
        lemma_spaces_end_bounds(s, i + 1);
    }
}

/// The bounds of what `token_end` returns.
pub proof fn lemma_token_end_bounds(s: Seq<char>, i: int)
    requires
        0 <= i <= s.len(),
    ensures
        i <= token_end(s, i) <= s.len(),
    decreases s.len() - i,
{
    if i < s.len() && !is_space(s[i]) {
        lemma_token_end_bounds(s, i + 1);
    }
}

/// Moves `i` past the whitespace that starts there.
pub fn skip_spaces(s: &Vec<char>, i: usize) -> (j: usize)
    requires
        i <= s.len(),
    ensures
        j == spaces_end(s@, i as int),
        i <= j <= s.len(),
{
    let mut j = i;
    while j < s.len() && is_whitespace(s[j])
        invariant
            i <= j <= s.len(),
            spaces_end(s@, i as int) == spaces_end(s@, j as int),
        decreases s.len() - j,
    {
        j += 1;
    }
    j
}

/// Moves `i` to the next whitespace character, or to the end.
pub fn skip_token(s: &Vec<char>, i: usize) -> (j: usize)
    requires
        i <= s.len(),
    ensures
        j == token_end(s@, i as int),
        i <= j <= s.len(),
{
    let mut j = i;
    while j < s.len() && !is_whitespace(s[j])
        invariant
            i <= j <= s.len(),
            token_end(s@, i as int) == token_end(s@, j as int),
        decreases s.len() - j,
    {
        j += 1;
    }
    j
}

/// The length of `s` without its trailing whitespace.
pub fn trim_end(s: &Vec<char>) -> (n: usize)
    ensures
        n == trimmed_len(s@),
        n <= s.len(),
        n > 0 ==> !is_space(s@[n - 1]),
{
    let mut n = s.len();
    proof {
        assert(s@.take(n as int) == s@);
    }
    while n > 0 && is_whitespace(s[n - 1])
        invariant
            n <= s.len(),
            trimmed_len(s@) == trimmed_len(s@.take(n as int)),
        decreases n,
    {
        proof {
            assert(s@.take(n as int).drop_last() == s@.take(n - 1));
        }
        n -= 1;
    }
    n
}

/// Reads the word between `from` and `to` as eight hexadecimal digits.
pub fn hex_word(s: &Vec<char>, from: usize, to: usize) -> (r: Option<u32>)
    requires
        from <= to <= s.len(),
    ensures
        match r {
            Some(v) => is_hex_word(s@.subrange(from as int, to as int)) && v == hex_value(
                s@.subrange(from as int, to as int),
            ),
            None => !is_hex_word(s@.subrange(from as int, to as int)),
        },
{
    if to - from != 8 {
        return None;
    }
    let ghost w = s@.subrange(from as int, to as int);
    let mut acc: u64 = 0;
    let mut i: usize = from;
    proof {
        assert(w.take(0).len() == 0);
    }
    while i < to
        invariant
            from <= i <= to <= s.len(),
            to - from == 8,
            w == s@.subrange(from as int, to as int),
            forall|k: int| 0 <= k < i - from ==> is_hex_digit(#[trigger] w[k]),
            acc == hex_value(w.take(i - from)),
            acc < pow16((i - from) as nat),
        decreases to - i,
    {
        let d = match hex_digit(s[i]) {
            Some(d) => d,
            None => {
                assert(!is_hex_digit(w[i - from]));
                return None;
            },
        };
        proof {
            assert(w.take(i - from + 1).drop_last() == w.take(i - from));
            assert(w.take(i - from + 1).last() == s@[i as int]);
            assert(pow16((i - from) as nat) <= pow16(8)) by {
                reveal_with_fuel(pow16, 9);
            }
            assert(pow16(8) == 0x1_0000_0000) by {
                reveal_with_fuel(pow16, 9);
            }
        }
        acc = acc * 16 + d as u64;
        i += 1;
    }
    proof {
        assert(w.take(8) == w);
        assert(pow16(8) == 0x1_0000_0000) by {
            reveal_with_fuel(pow16, 9);
        }
    }
    Some(acc as u32)
}

/// Whether a line feed stands between `from` and `to`.
pub fn has_line_feed(s: &Vec<char>, from: usize, to: usize) -> (r: bool)
    requires
        from <= to <= s.len(),
    ensures
        r == s@.subrange(from as int, to as int).contains('\n'),
{
    let ghost w = s@.subrange(from as int, to as int);
    let mut i = from;
    while i < to
        invariant
            from <= i <= to <= s.len(),
            w == s@.subrange(from as int, to as int),
            forall|k: int| 0 <= k < i - from ==> #[trigger] w[k] != '\n',
        decreases to - i,
    {
        if s[i] == '\n' {
            assert(w[i - from] == '\n');
            return true;
        }
        i += 1;
    }
    false
}

/// The hexadecimal digit, in lowercase, for a value below 16.
pub open spec fn hex_char(d: nat) -> char {
    if d < 10 {
        ('0' as u32 + d) as char
    } else {
        ('a' as u32 + d - 10) as char
    }
}

/// The `n` least significant hexadecimal digits of `v`, most significant digit
/// first.
pub open spec fn hex_digits(v: nat, n: nat) -> Seq<char>
    decreases n,
{
    if n == 0 {
        Seq::empty()
    } else {
        hex_digits(v / 16, (n - 1) as nat).push(hex_char(v % 16))
    }
}

/// The line that this crate renders a symbol as: address and size in eight
/// lowercase hexadecimal digits each, the tag of the type, and the name, with
/// one blank between them.
pub open spec fn canonical_line(raw: RawSymbolView) -> Seq<char> {
    hex_digits(raw.addr as nat, 8) + seq![' '] + hex_digits(raw.size as nat, 8) + seq![' ']
        + seq![raw.sym_type.spec_tag()] + seq![' '] + raw.name
}

/// Whether `s` splits into the fields that `l` gives, with whitespace before,
/// between and after them, and only there.
pub open spec fn is_laid_out(s: Seq<char>, l: Layout) -> bool {
    &&& 0 <= l.addr.0 < l.addr.1 < l.size.0 < l.size.1 < l.tag.0 < l.tag.1 < l.name.0 < l.name.1
        <= s.len()
    &&& all_spaces(s.subrange(0, l.addr.0))
    &&& no_spaces(s.subrange(l.addr.0, l.addr.1))
    &&& all_spaces(s.subrange(l.addr.1, l.size.0))
    &&& no_spaces(s.subrange(l.size.0, l.size.1))
    &&& all_spaces(s.subrange(l.size.1, l.tag.0))
    &&& no_spaces(s.subrange(l.tag.0, l.tag.1))
    &&& all_spaces(s.subrange(l.tag.1, l.name.0))
    &&& !is_space(s[l.name.0])
    &&& !is_space(s[l.name.1 - 1])
    &&& all_spaces(s.subrange(l.name.1, s.len() as int))
}

/// Where whitespace runs from `i` up to `j` and ends there, `spaces_end`
/// gives `j`.
pub proof fn lemma_spaces_end_run(s: Seq<char>, i: int, j: int)
    requires
        0 <= i <= j <= s.len(),
        all_spaces(s.subrange(i, j)),
        j < s.len() ==> !is_space(s[j]),
    ensures
        spaces_end(s, i) == j,
    decreases j - i,
{
    if i < j {
        assert(s[i] == s.subrange(i, j)[0]);
        assert forall|k: int| 0 <= k < j - (i + 1) implies is_space(
            #[trigger] s.subrange(i + 1, j)[k],
        ) by {
            assert(s.subrange(i + 1, j)[k] == s.subrange(i, j)[k + 1]);
        }
        lemma_spaces_end_run(s, i + 1, j);
    }
}

/// Where characters other than whitespace run from `i` up to `j` and end
/// there, `token_end` gives `j`.
pub proof fn lemma_token_end_run(s: Seq<char>, i: int, j: int)
    requires
        0 <= i <= j <= s.len(),
        no_spaces(s.subrange(i, j)),
        j < s.len() ==> is_space(s[j]),
    ensures
        token_end(s, i) == j,
    decreases j - i,
{
    if i < j {
        assert(s[i] == s.subrange(i, j)[0]);
        assert forall|k: int| 0 <= k < j - (i + 1) implies !is_space(
            #[trigger] s.subrange(i + 1, j)[k],
        ) by {
            assert(s.subrange(i + 1, j)[k] == s.subrange(i, j)[k + 1]);
        }
        lemma_token_end_run(s, i + 1, j);
    }
}

/// Where whitespace runs from `n` to the end of `s` and starts there,
/// `trimmed_len` gives `n`.
pub proof fn lemma_trimmed_len_run(s: Seq<char>, n: int)
    requires
        0 <= n <= s.len(),
        all_spaces(s.subrange(n, s.len() as int)),
        n > 0 ==> !is_space(s[n - 1]),
    ensures
        trimmed_len(s) == n,
    decreases s.len() - n,
{
    if n < s.len() {
        let t = s.drop_last();
        assert(s.last() == s.subrange(n, s.len() as int)[s.len() - 1 - n]);
        assert forall|k: int| 0 <= k < t.len() - n implies is_space(
            #[trigger] t.subrange(n, t.len() as int)[k],
        ) by {
            assert(t.subrange(n, t.len() as int)[k] == s.subrange(n, s.len() as int)[k]);
        }
        lemma_trimmed_len_run(t, n);
    }
}

/// `spaces_end` stops at a character that is no whitespace, or at the end.
pub proof fn lemma_spaces_end_stops(s: Seq<char>, i: int)
    requires
        0 <= i <= s.len(),
    ensures
        spaces_end(s, i) < s.len() ==> !is_space(s[spaces_end(s, i)]),
    decreases s.len() - i,
{
    if i < s.len() && is_space(s[i]) {
        lemma_spaces_end_stops(s, i + 1);
    }
}

/// What `trimmed_len` leaves does not end with whitespace.
pub proof fn lemma_trimmed_len_stops(s: Seq<char>)
    ensures
        0 <= trimmed_len(s) <= s.len(),
        trimmed_len(s) > 0 ==> !is_space(s[trimmed_len(s) - 1]),
    decreases s.len(),
{
    if s.len() > 0 && is_space(s.last()) {
        lemma_trimmed_len_stops(s.drop_last());
    }
}

/// A line has one layout only: the fields are where the whitespace leaves
/// them.
pub proof fn lemma_layout_unique(s: Seq<char>, l: Layout)
    requires
        is_laid_out(s, l),
    ensures
        layout(s) == l,
{
    assert(!is_space(s[l.addr.0])) by {
        assert(s[l.addr.0] == s.subrange(l.addr.0, l.addr.1)[0]);
    }
    assert(is_space(s[l.addr.1])) by {
        assert(s[l.addr.1] == s.subrange(l.addr.1, l.size.0)[0]);
    }
    assert(!is_space(s[l.size.0])) by {
        assert(s[l.size.0] == s.subrange(l.size.0, l.size.1)[0]);
    }
    assert(is_space(s[l.size.1])) by {
        assert(s[l.size.1] == s.subrange(l.size.1, l.tag.0)[0]);
    }
    assert(!is_space(s[l.tag.0])) by {
        assert(s[l.tag.0] == s.subrange(l.tag.0, l.tag.1)[0]);
    }
    assert(is_space(s[l.tag.1])) by {
        assert(s[l.tag.1] == s.subrange(l.tag.1, l.name.0)[0]);
    }
    lemma_spaces_end_run(s, 0, l.addr.0);
    lemma_token_end_run(s, l.addr.0, l.addr.1);
    lemma_spaces_end_run(s, l.addr.1, l.size.0);
    lemma_token_end_run(s, l.size.0, l.size.1);
    lemma_spaces_end_run(s, l.size.1, l.tag.0);
    lemma_token_end_run(s, l.tag.0, l.tag.1);
    lemma_spaces_end_run(s, l.tag.1, l.name.0);
    lemma_trimmed_len_run(s, l.name.1);
}

/// The name of a line that parses is a name: not empty, without whitespace
/// at either end and without a line feed.
pub proof fn lemma_parsed_name(s: Seq<char>)
    ensures
        parse_line(s) matches Some(raw) ==> is_name(raw.name),
{
    if parse_line(s) is Some {
        let l = layout(s);
        lemma_spaces_end_bounds(s, 0);
        lemma_token_end_bounds(s, l.addr.0);
        lemma_spaces_end_bounds(s, l.addr.1);
        lemma_token_end_bounds(s, l.size.0);
        lemma_spaces_end_bounds(s, l.size.1);
        lemma_token_end_bounds(s, l.tag.0);
        lemma_spaces_end_bounds(s, l.tag.1);
        lemma_spaces_end_stops(s, l.tag.1);
        lemma_trimmed_len_stops(s);
        let name = s.subrange(l.name.0, l.name.1);
        assert(name.first() == s[l.name.0]);
        assert(name.last() == s[l.name.1 - 1]);
    }
}

/// A hexadecimal digit is no whitespace, and so is the tag of a symbol type.
pub proof fn lemma_fields_hold_no_space(c: char)
    ensures
        is_hex_digit(c) ==> !is_space(c),
        SymbolType::spec_from_tag(c) is Some ==> !is_space(c),
{
}

/// Any line made of an address, a size, a tag and a name, with whitespace
/// before, between and after them, parses to these four fields.
pub proof fn lemma_parse_line_fields(
    lead: Seq<char>,
    addr: Seq<char>,
    gap1: Seq<char>,
    size: Seq<char>,
    gap2: Seq<char>,
    tag: char,
    gap3: Seq<char>,
    name: Seq<char>,
    trail: Seq<char>,
)
    requires
        all_spaces(lead),
        is_hex_word(addr),
        all_spaces(gap1) && gap1.len() > 0,
        is_hex_word(size),
        all_spaces(gap2) && gap2.len() > 0,
        SymbolType::spec_from_tag(tag) is Some,
        all_spaces(gap3) && gap3.len() > 0,
        is_name(name),
        all_spaces(trail),
    ensures
        parse_line(lead + addr + gap1 + size + gap2 + seq![tag] + gap3 + name + trail) == Some(
            RawSymbolView {
                addr: hex_value(addr) as u32,
                size: hex_value(size) as u32,
                sym_type: SymbolType::spec_from_tag(tag)->0,
                name,
            },
        ),
{
    let s1 = lead + addr;
    let s2 = s1 + gap1;
    let s3 = s2 + size;
    let s4 = s3 + gap2;
    let s5 = s4 + seq![tag];
    let s6 = s5 + gap3;
    let s7 = s6 + name;
    let s = s7 + trail;
    let a0 = lead.len() as int;
    let a1 = a0 + 8;
    let b0 = a1 + gap1.len();
    let b1 = b0 + 8;
    let t0 = b1 + gap2.len();
    let t1 = t0 + 1;
    let n0 = t1 + gap3.len();
    let n1 = n0 + name.len();
    let l = Layout { addr: (a0, a1), size: (b0, b1), tag: (t0, t1), name: (n0, n1) };
    assert(s.subrange(0, a0) == lead);
    assert(s.subrange(a0, a1) == addr);
    assert(s.subrange(a1, b0) == gap1);
    assert(s.subrange(b0, b1) == size);
    assert(s.subrange(b1, t0) == gap2);
    assert(s.subrange(t0, t1) == seq![tag]);
    assert(s.subrange(t1, n0) == gap3);
    assert(s.subrange(n0, n1) == name);
    assert(s.subrange(n1, s.len() as int) == trail);
    assert(s[t0] == tag);
    assert(s[n0] == name.first());
    assert(s[n1 - 1] == name.last());
    assert(no_spaces(addr)) by {
        assert forall|i: int| 0 <= i < addr.len() implies !is_space(#[trigger] addr[i]) by {
            lemma_fields_hold_no_space(addr[i]);
        }
    }
    assert(no_spaces(size)) by {
        assert forall|i: int| 0 <= i < size.len() implies !is_space(#[trigger] size[i]) by {
            lemma_fields_hold_no_space(size[i]);
        }
    }
    assert(no_spaces(seq![tag])) by {
        lemma_fields_hold_no_space(tag);
    }
    assert(is_laid_out(s, l));
    lemma_layout_unique(s, l);
}

/// The digits of a number below 16 to the `n` spell that number.
pub proof fn lemma_hex_digits_value(v: nat, n: nat)
    requires
        v < pow16(n),
    ensures
        hex_digits(v, n).len() == n,
        forall|i: int| 0 <= i < n ==> is_hex_digit(#[trigger] hex_digits(v, n)[i]),
        hex_value(hex_digits(v, n)) == v,
    decreases n,
{
    if n > 0 {
        let rest = hex_digits(v / 16, (n - 1) as nat);
        lemma_hex_digits_value(v / 16, (n - 1) as nat);
        let d = v % 16;
        assert(is_hex_digit(hex_char(d)) && hex_digit_value(hex_char(d)) == d);
        assert(hex_digits(v, n).drop_last() == rest);
        assert(hex_digits(v, n).last() == hex_char(d));
        assert forall|i: int| 0 <= i < n implies is_hex_digit(#[trigger] hex_digits(v, n)[i]) by {
            if i < n - 1 {
                assert(hex_digits(v, n)[i] == rest[i]);
            }
        }
    }
}

/// The line that a symbol is rendered as parses to that symbol again.
pub proof fn lemma_canonical_line_parses(raw: RawSymbolView)
    requires
        is_name(raw.name),
    ensures
        parse_line(canonical_line(raw)) == Some(raw),
{
    let addr = hex_digits(raw.addr as nat, 8);
    let size = hex_digits(raw.size as nat, 8);
    assert(pow16(8) == 0x1_0000_0000) by {
        reveal_with_fuel(pow16, 9);
    }
    lemma_hex_digits_value(raw.addr as nat, 8);
    lemma_hex_digits_value(raw.size as nat, 8);
    raw.sym_type.lemma_tag_roundtrip();
    let blank = seq![' '];
    assert(all_spaces(blank));
    assert(all_spaces(Seq::<char>::empty()));
    lemma_parse_line_fields(
        Seq::empty(),
        addr,
        blank,
        size,
        blank,
        raw.sym_type.spec_tag(),
        blank,
        raw.name,
        Seq::empty(),
    );
    assert(Seq::<char>::empty() + addr + blank + size + blank + seq![raw.sym_type.spec_tag()]
        + blank + raw.name + Seq::<char>::empty() == canonical_line(raw));
}

/// Parsing a line, rendering the result and parsing again gives the same
/// symbol.
pub proof fn lemma_parse_roundtrip(s: Seq<char>)
    ensures
        parse_line(s) matches Some(raw) ==> parse_line(canonical_line(raw)) == Some(raw),
{
    if let Some(raw) = parse_line(s) {
        lemma_parsed_name(s);
        lemma_canonical_line_parses(raw);
    }
}

} // verus!
