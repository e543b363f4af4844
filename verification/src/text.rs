use crate::shims::white_space;
use vstd::prelude::*;
use vstd::utf8::{encode_utf8, encode_utf8_decode_utf8};

verus! {

/// The characters of each string of a sequence.
pub open spec fn texts(v: Seq<String>) -> Seq<Seq<char>> {
    Seq::new(v.len(), |i: int| v[i]@)
}

/// The characters of each string slice of a sequence.
pub open spec fn slices(v: Seq<&str>) -> Seq<Seq<char>> {
    Seq::new(v.len(), |i: int| v[i]@)
}

/// What separates the pieces of a text.
#[derive(Clone, Copy, Debug)]
pub enum Delimiter {
    /// One given character.
    Char(char),
    /// Any whitespace character.
    Whitespace,
}

impl Delimiter {
    /// Whether `c` separates two pieces.
    pub open spec fn matches(self, c: char) -> bool {
        match self {
            Delimiter::Char(d) => c == d,
            Delimiter::Whitespace => white_space(c),
        }
    }

    /// Tests whether `c` separates two pieces.
    pub fn test(&self, c: char) -> (hit: bool)
        ensures
            hit == self.matches(c),
    {
        match self {
            Delimiter::Char(d) => c == *d,
            Delimiter::Whitespace => c.is_whitespace(),
        }
    }
}

/// Index of the first delimiter in `s`, or `s.len()` when it holds none.
pub open spec fn break_index(s: Seq<char>, d: Delimiter) -> int
    decreases s.len(),
{
    if s.len() == 0 || d.matches(s[0]) {
        0
    } else {
        1 + break_index(s.drop_first(), d)
    }
}

/// The pieces of `s` between delimiters. Every delimiter ends a piece, so a
/// text with `n` delimiters has `n + 1` pieces, some of them possibly empty.
pub open spec fn split_at(s: Seq<char>, d: Delimiter) -> Seq<Seq<char>>
    decreases s.len(),
{
    let i = break_index(s, d);
    if 0 <= i < s.len() {
        seq![s.take(i)] + split_at(s.skip(i + 1), d)
    } else {
        seq![s]
    }
}

/// The maximal runs of non-whitespace characters of `s`, in order.
pub open spec fn words(s: Seq<char>) -> Seq<Seq<char>> {
    split_at(s, Delimiter::Whitespace).filter(|w: Seq<char>| w.len() > 0)
}

/// `s` without its leading whitespace.
pub open spec fn trim_start(s: Seq<char>) -> Seq<char>
    decreases s.len(),
{
    if s.len() > 0 && white_space(s[0]) {
        trim_start(s.drop_first())
    } else {
        s
    }
}

/// `s` without its trailing whitespace.
pub open spec fn trim_end(s: Seq<char>) -> Seq<char>
    decreases s.len(),
{
    if s.len() > 0 && white_space(s.last()) {
        trim_end(s.drop_last())
    } else {
        s
    }
}

/// `s` without the whitespace at either end.
pub open spec fn trim(s: Seq<char>) -> Seq<char> {
    trim_end(trim_start(s))
}

/// Index at which `pat` first occurs in `s`.
pub open spec fn find(s: Seq<char>, pat: Seq<char>) -> Option<int>
    decreases s.len(),
{
    if pat.is_prefix_of(s) {
        Some(0)
    } else if s.len() == 0 {
        None
    } else {
        match find(s.drop_first(), pat) {
            Some(i) => Some(i + 1),
            None => None,
        }
    }
}

/// `s` with one trailing carriage return removed.
pub open spec fn strip_cr(s: Seq<char>) -> Seq<char> {
    if s.len() > 0 && s.last() == '\r' {
        s.drop_last()
    } else {
        s
    }
}

/// The lines of `s`. A line ends at a line feed; a carriage return just
/// before that line feed belongs to the line ending. The last line needs no
/// line ending, and is kept as it stands unless it is empty.
pub open spec fn lines(s: Seq<char>) -> Seq<Seq<char>> {
    let pieces = split_at(s, Delimiter::Char('\n'));
    let ended = pieces.drop_last().map_values(|p: Seq<char>| strip_cr(p));
    if pieces.last().len() == 0 {
        ended
    } else {
        ended.push(pieces.last())
    }
}

/// The empty literal holds no character.
pub proof fn lemma_empty_literal()
    ensures
        ""@ == Seq::<char>::empty(),
{
    reveal_strlit("");
    assert(""@ =~= Seq::<char>::empty());
}

/// The first delimiter stands at `k` when none stands before `k` and one
/// stands at `k`, or `k` is the end.
pub proof fn lemma_break_index(s: Seq<char>, d: Delimiter, k: int)
    requires
        0 <= k <= s.len(),
        forall|j: int| 0 <= j < k ==> !d.matches(s[j]),
        k == s.len() || d.matches(s[k]),
    ensures
        break_index(s, d) == k,
    decreases k,
{
    if k > 0 {
        lemma_break_index(s.drop_first(), d, k - 1);
    }
}

/// Splitting gives at least one piece.
pub proof fn lemma_split_nonempty(s: Seq<char>, d: Delimiter)
    ensures
        split_at(s, d).len() >= 1,
    decreases s.len(),
{
    let i = break_index(s, d);
    if 0 <= i < s.len() {
        lemma_split_nonempty(s.skip(i + 1), d);
    }
}

/// Copies a string's characters into a vector.
pub fn to_chars(s: &str) -> (v: Vec<char>)
    ensures
        v@ == s@,
{
    let mut v: Vec<char> = Vec::new();
    for c in it: s.chars()
        invariant
            it.seq() == s@,
            v@ =~= s@.take(it.index() as int),
    {
        v.push(c);
    }
    assert(s@.take(s@.len() as int) =~= s@);
    v
}

/// The string made of the characters `v[from..to]`.
pub fn text_of(v: &[char], from: usize, to: usize) -> (s: String)
    requires
        from <= to <= v.len(),
    ensures
        s@ == v@.subrange(from as int, to as int),
{
    let mut s = String::new();
    let mut i: usize = from;
    while i < to
        invariant
            from <= i <= to <= v.len(),
            s@ =~= v@.subrange(from as int, i as int),
        decreases to - i,
    {
        s.push(v[i]);
        i += 1;
    }
    s
}

/// Index of the first delimiter in `s`, or its length.
pub fn first_break(s: &[char], d: Delimiter) -> (i: usize)
    ensures
        i <= s.len(),
        i == break_index(s@, d),
{
    let mut i: usize = 0;
    while i < s.len() && !d.test(s[i])
        invariant
            i <= s.len(),
            forall|j: int| 0 <= j < i ==> !d.matches(s@[j]),
        decreases s.len() - i,
    {
        i += 1;
    }
    proof {
        lemma_break_index(s@, d, i as int);
    }
    i
}

/// Splits `s` at every delimiter.
pub fn split_text(s: &[char], d: Delimiter) -> (parts: Vec<String>)
    ensures
        texts(parts@) == split_at(s@, d),
{
    let mut parts: Vec<String> = Vec::new();
    let mut start: usize = 0;
    let mut i: usize = 0;
    assert(s@.skip(0) =~= s@);
    while i < s.len()
        invariant
            start <= i <= s.len(),
            forall|j: int| start <= j < i ==> !d.matches(s@[j]),
            split_at(s@, d) =~= texts(parts@) + split_at(s@.skip(start as int), d),
        decreases s.len() - i,
    {
        if d.test(s[i]) {
            let piece = text_of(s, start, i);
            proof {
                let rest = s@.skip(start as int);
                lemma_break_index(rest, d, i - start);
                assert(rest.skip(i - start + 1) =~= s@.skip(i + 1));
                assert(rest.take(i - start) =~= piece@);
                assert(texts(parts@.push(piece)) =~= texts(parts@) + seq![piece@]);
            }
            parts.push(piece);
            start = i + 1;
        }
        i += 1;
    }
    let piece = text_of(s, start, s.len());
    proof {
        let rest = s@.skip(start as int);
        lemma_break_index(rest, d, s.len() - start);
        assert(rest =~= piece@);
        assert(texts(parts@.push(piece)) =~= texts(parts@) + seq![piece@]);
    }
    parts.push(piece);
    parts
}

/// The non-empty pieces of `s` between whitespace.
pub fn split_words(s: &[char]) -> (out: Vec<String>)
    ensures
        texts(out@) == words(s@),
{
    let parts = split_text(s, Delimiter::Whitespace);
    let ghost all = texts(parts@);
    let ghost keep = |w: Seq<char>| w.len() > 0;
    let mut out: Vec<String> = Vec::new();
    let mut i: usize = 0;
    proof {
        reveal(Seq::filter);
        assert(all.take(0).filter(keep) =~= Seq::<Seq<char>>::empty());
    }
    while i < parts.len()
        invariant
            i <= parts.len(),
            all == texts(parts@),
            keep == (|w: Seq<char>| w.len() > 0),
            texts(out@) =~= all.take(i as int).filter(keep),
        decreases parts.len() - i,
    {
        proof {
            assert(all.take(i + 1) =~= all.take(i as int).push(all[i as int]));
            Seq::lemma_filter_push(all.take(i as int), all[i as int], keep);
        }
        if !parts[i].as_str().is_empty() {
            let word = parts[i].clone();
            assert(texts(out@.push(word)) =~= texts(out@).push(word@));
            out.push(word);
        }
        i += 1;
    }
    assert(all.take(parts.len() as int) =~= all);
    out
}

/// The bounds of `s` without the whitespace at either end.
pub fn trim_bounds(s: &[char]) -> (r: (usize, usize))
    ensures
        r.0 <= r.1 <= s.len(),
        trim(s@) == s@.subrange(r.0 as int, r.1 as int),
{
    let mut a: usize = 0;
    assert(s@.skip(0) =~= s@);
    while a < s.len() && s[a].is_whitespace()
        invariant
            a <= s.len(),
            trim_start(s@) == trim_start(s@.skip(a as int)),
        decreases s.len() - a,
    {
        assert(s@.skip(a as int).drop_first() =~= s@.skip(a + 1));
        a += 1;
    }
    let mut b: usize = s.len();
    assert(s@.skip(a as int) =~= s@.subrange(a as int, b as int));
    while b > a && s[b - 1].is_whitespace()
        invariant
            a <= b <= s.len(),
            trim(s@) == trim_end(s@.subrange(a as int, b as int)),
        decreases b,
    {
        assert(s@.subrange(a as int, b as int).drop_last() =~= s@.subrange(a as int, b - 1));
        b -= 1;
    }
    (a, b)
}

/// `s` without the whitespace at either end.
pub fn trim_text(s: &str) -> (out: String)
    ensures
        out@ == trim(s@),
{
    let chars = to_chars(s);
    let (a, b) = trim_bounds(chars.as_slice());
    text_of(chars.as_slice(), a, b)
}

/// Whether `pat` stands in `s` at index `i`.
pub fn starts_at(s: &[char], pat: &[char], i: usize) -> (hit: bool)
    requires
        i <= s.len(),
    ensures
        hit == pat@.is_prefix_of(s@.skip(i as int)),
{
    if pat.len() > s.len() - i {
        return false;
    }
    let mut k: usize = 0;
    while k < pat.len()
        invariant
            k <= pat.len(),
            i + pat.len() <= s.len(),
            forall|j: int| 0 <= j < k ==> pat@[j] == s@[i + j],
        decreases pat.len() - k,
    {
        if s[i + k] != pat[k] {
            assert(s@.skip(i as int).subrange(0, pat@.len() as int)[k as int] != pat@[k as int]);
            return false;
        }
        k += 1;
    }
    assert(pat@ =~= s@.skip(i as int).subrange(0, pat@.len() as int));
    true
}

/// Whether `s` begins with `pat`.
pub fn has_prefix(s: &[char], pat: &[char]) -> (hit: bool)
    ensures
        hit == pat@.is_prefix_of(s@),
{
    assert(s@.skip(0) =~= s@);
    starts_at(s, pat, 0)
}

/// Whether two texts hold the same characters.
pub fn same_text(a: &str, b: &str) -> (same: bool)
    ensures
        same == (a@ == b@),
{
    let x = a.as_bytes();
    let y = b.as_bytes();
    if x.len() != y.len() {
        return false;
    }
    let mut i: usize = 0;
    while i < x.len()
        invariant
            i <= x.len() == y.len(),
            x@ == encode_utf8(a@),
            y@ == encode_utf8(b@),
            forall|j: int| 0 <= j < i ==> x@[j] == y@[j],
        decreases x.len() - i,
    {
        if x[i] != y[i] {
            return false;
        }
        i += 1;
    }
    proof {
        assert(x@ =~= y@);
        encode_utf8_decode_utf8(a@);
        encode_utf8_decode_utf8(b@);
    }
    true
}

/// `o` moved right by `k`.
pub open spec fn shifted(o: Option<int>, k: int) -> Option<int> {
    match o {
        Some(i) => Some(i + k),
        None => None,
    }
}

/// Where `pat` is found, it stands there and fits in `s`.
pub proof fn lemma_find_bounds(s: Seq<char>, pat: Seq<char>)
    ensures
        find(s, pat) matches Some(i) ==> 0 <= i && i + pat.len() <= s.len() && pat.is_prefix_of(
            s.skip(i),
        ),
    decreases s.len(),
{
    if pat.is_prefix_of(s) {
        assert(s.skip(0) =~= s);
    } else if s.len() > 0 {
        lemma_find_bounds(s.drop_first(), pat);
        if let Some(i) = find(s.drop_first(), pat) {
            assert(s.drop_first().skip(i) =~= s.skip(i + 1));
        }
    }
}

/// `pat` stands nowhere before the index at which it is found, and nowhere
/// at all where it is not found.
pub proof fn law_find_is_first(s: Seq<char>, pat: Seq<char>, j: int)
    requires
        0 <= j <= s.len(),
        find(s, pat) matches Some(i) ==> j < i,
    ensures
        !pat.is_prefix_of(s.skip(j)),
    decreases s.len(),
{
    assert(s.skip(0) =~= s);
    if !pat.is_prefix_of(s) && s.len() > 0 && j > 0 {
        law_find_is_first(s.drop_first(), pat, j - 1);
        assert(s.drop_first().skip(j - 1) =~= s.skip(j));
    }
}

/// A trimmed text neither begins nor ends with whitespace.
pub proof fn law_trim_ends(s: Seq<char>)
    ensures
        trim(s).len() > 0 ==> !white_space(trim(s)[0]) && !white_space(trim(s).last()),
{
    lemma_trim_start(s);
    lemma_trim_end(trim_start(s));
}

/// What is left after leading whitespace is empty or begins otherwise.
proof fn lemma_trim_start(s: Seq<char>)
    ensures
        trim_start(s).len() > 0 ==> !white_space(trim_start(s)[0]),
    decreases s.len(),
{
    if s.len() > 0 && white_space(s[0]) {
        lemma_trim_start(s.drop_first());
    }
}

/// What is left after trailing whitespace is a prefix that is empty or ends
/// otherwise.
proof fn lemma_trim_end(s: Seq<char>)
    ensures
        trim_end(s).is_prefix_of(s),
        trim_end(s).len() > 0 ==> !white_space(trim_end(s).last()),
    decreases s.len(),
{
    if s.len() > 0 && white_space(s.last()) {
        lemma_trim_end(s.drop_last());
    }
}

/// Index at which `pat` first occurs in `s`.
pub fn find_text(s: &[char], pat: &[char]) -> (r: Option<usize>)
    ensures
        match r {
            Some(i) => find(s@, pat@) == Some(i as int) && i + pat.len() <= s.len(),
            None => find(s@, pat@) is None,
        },
{
    let mut i: usize = 0;
    assert(s@.skip(0) =~= s@);
    proof {
        lemma_find_bounds(s@, pat@);
    }
    loop
        invariant
            i <= s.len(),
            find(s@, pat@) == shifted(find(s@.skip(i as int), pat@), i as int),
        decreases s.len() - i,
    {
        if starts_at(s, pat, i) {
            return Some(i);
        }
        if i == s.len() {
            return None;
        }
        assert(s@.skip(i as int).drop_first() =~= s@.skip(i + 1));
        i += 1;
    }
}

/// The lines of `s`, without their line endings.
pub fn split_lines(s: &[char]) -> (out: Vec<String>)
    ensures
        texts(out@) == lines(s@),
{
    let parts = split_text(s, Delimiter::Char('\n'));
    proof {
        lemma_split_nonempty(s@, Delimiter::Char('\n'));
    }
    let ghost pieces = texts(parts@);
    let ghost strip = |p: Seq<char>| strip_cr(p);
    let mut out: Vec<String> = Vec::new();
    let last: usize = parts.len() - 1;
    let mut i: usize = 0;
    while i < last
        invariant
            i <= last == parts.len() - 1,
            pieces == texts(parts@),
            strip == (|p: Seq<char>| strip_cr(p)),
            texts(out@) =~= pieces.drop_last().map_values(strip).take(i as int),
        decreases last - i,
    {
        let chars = to_chars(parts[i].as_str());
        let n: usize = chars.len();
        let end: usize = if n > 0 && chars[n - 1] == '\r' {
            n - 1
        } else {
            n
        };
        let line = text_of(chars.as_slice(), 0, end);
        proof {
            assert(chars@ == pieces[i as int]);
            assert(line@ =~= strip_cr(chars@));
            assert(texts(out@.push(line)) =~= texts(out@).push(line@));
        }
        out.push(line);
        i += 1;
    }
    assert(pieces.drop_last().map_values(strip).take(last as int) =~= pieces.drop_last().map_values(
        strip,
    ));
    if !parts[last].as_str().is_empty() {
        let line = parts[last].clone();
        assert(texts(out@.push(line)) =~= texts(out@).push(line@));
        out.push(line);
    }
    out
}

} // verus!
