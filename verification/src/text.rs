//! Character-sequence utilities shared by the categorizer, the command
//! interpreter and the status-text parser: ASCII case folding, substring
//! search, trimming, lexicographic comparison, token removal and line
//! splitting, all specified over `Seq<char>`.

use vstd::prelude::*;

verus! {

/// ASCII lowercase folding of one character; any character outside
/// `'A'..='Z'` is unchanged.
///
/// The folding is deliberately ASCII-only: every token the categorizer and
/// the command interpreter compare against is ASCII, so folding beyond
/// ASCII could never change which rule or command matches.  A name using
/// non-ASCII letterforms is simply compared as written.
pub open spec fn lower_char(c: char) -> char {
    if c == 'A' {
        'a'
    } else if c == 'B' {
        'b'
    } else if c == 'C' {
        'c'
    } else if c == 'D' {
        'd'
    } else if c == 'E' {
        'e'
    } else if c == 'F' {
        'f'
    } else if c == 'G' {
        'g'
    } else if c == 'H' {
        'h'
    } else if c == 'I' {
        'i'
    } else if c == 'J' {
        'j'
    } else if c == 'K' {
        'k'
    } else if c == 'L' {
        'l'
    } else if c == 'M' {
        'm'
    } else if c == 'N' {
        'n'
    } else if c == 'O' {
        'o'
    } else if c == 'P' {
        'p'
    } else if c == 'Q' {
        'q'
    } else if c == 'R' {
        'r'
    } else if c == 'S' {
        's'
    } else if c == 'T' {
        't'
    } else if c == 'U' {
        'u'
    } else if c == 'V' {
        'v'
    } else if c == 'W' {
        'w'
    } else if c == 'X' {
        'x'
    } else if c == 'Y' {
        'y'
    } else if c == 'Z' {
        'z'
    } else {
        c
    }
}

/// ASCII lowercase folding of a whole character sequence.
pub open spec fn lower_seq(s: Seq<char>) -> Seq<char> {
    s.map_values(|c: char| lower_char(c))
}

fn lower_char_exec(c: char) -> (r: char)
    ensures
        r == lower_char(c),
{
    if c == 'A' {
        'a'
    } else if c == 'B' {
        'b'
    } else if c == 'C' {
        'c'
    } else if c == 'D' {
        'd'
    } else if c == 'E' {
        'e'
    } else if c == 'F' {
        'f'
    } else if c == 'G' {
        'g'
    } else if c == 'H' {
        'h'
    } else if c == 'I' {
        'i'
    } else if c == 'J' {
        'j'
    } else if c == 'K' {
        'k'
    } else if c == 'L' {
        'l'
    } else if c == 'M' {
        'm'
    } else if c == 'N' {
        'n'
    } else if c == 'O' {
        'o'
    } else if c == 'P' {
        'p'
    } else if c == 'Q' {
        'q'
    } else if c == 'R' {
        'r'
    } else if c == 'S' {
        's'
    } else if c == 'T' {
        't'
    } else if c == 'U' {
        'u'
    } else if c == 'V' {
        'v'
    } else if c == 'W' {
        'w'
    } else if c == 'X' {
        'x'
    } else if c == 'Y' {
        'y'
    } else if c == 'Z' {
        'z'
    } else {
        c
    }
}

/// The characters of a string slice, as a vector.
pub fn chars_of(s: &str) -> (r: Vec<char>)
    ensures
        r@ == s@,
{
    let n = s.unicode_len();
    let mut r: Vec<char> = Vec::new();
    let mut i: usize = 0;
    while i < n
        invariant
            i <= n,
            n == s@.len(),
            r@ == s@.take(i as int),
        decreases n - i,
    {
        r.push(s.get_char(i));
        assert(r@ =~= s@.take(i + 1));
        i = i + 1;
    }
    assert(r@ =~= s@);
    r
}

/// The ASCII-lowercased characters of a string slice.
pub fn lower_chars(s: &str) -> (r: Vec<char>)
    ensures
        r@ == lower_seq(s@),
{
    let n = s.unicode_len();
    let mut r: Vec<char> = Vec::new();
    let mut i: usize = 0;
    while i < n
        invariant
            i <= n,
            n == s@.len(),
            r@ == lower_seq(s@.take(i as int)),
        decreases n - i,
    {
        r.push(lower_char_exec(s.get_char(i)));
        assert(r@ =~= lower_seq(s@.take(i + 1)));
        i = i + 1;
    }
    assert(r@ =~= lower_seq(s@));
    r
}

/// ASCII-lowercase a vector of characters.
pub fn lower_vec(v: &Vec<char>) -> (r: Vec<char>)
    ensures
        r@ == lower_seq(v@),
{
    let n = v.len();
    let mut r: Vec<char> = Vec::new();
    let mut i: usize = 0;
    while i < n
        invariant
            i <= n,
            n == v@.len(),
            r@ == lower_seq(v@.take(i as int)),
        decreases n - i,
    {
        r.push(lower_char_exec(v[i]));
        assert(r@ =~= lower_seq(v@.take(i + 1)));
        i = i + 1;
    }
    assert(r@ =~= lower_seq(v@));
    r
}

/// `needle` occurs contiguously somewhere in `hay`.
pub open spec fn contains_seq(hay: Seq<char>, needle: Seq<char>) -> bool {
    exists|i: int|
        0 <= i && i + needle.len() <= hay.len() && #[trigger] hay.subrange(
            i,
            i + needle.len(),
        ) == needle
}

/// `hay` begins with `needle`.
pub open spec fn starts_with_seq(hay: Seq<char>, needle: Seq<char>) -> bool {
    needle.len() <= hay.len() && hay.subrange(0, needle.len() as int) == needle
}

/// `hay` ends with `needle`.
pub open spec fn ends_with_seq(hay: Seq<char>, needle: Seq<char>) -> bool {
    needle.len() <= hay.len() && hay.subrange(
        hay.len() - needle.len(),
        hay.len() as int,
    ) == needle
}

/// Does `needle` match `hay` at offset `at`?
fn matches_at(hay: &Vec<char>, needle: &Vec<char>, at: usize) -> (r: bool)
    requires
        at + needle@.len() <= hay@.len(),
    ensures
        r == (hay@.subrange(at as int, at + needle@.len()) == needle@),
{
    let n = needle.len();
    let hl = hay.len();
    let mut j: usize = 0;
    while j < n
        invariant
            j <= n,
            n == needle@.len(),
            hl == hay@.len(),
            at + n <= hl,
            forall|k: int| 0 <= k < j ==> hay@[at + k] == needle@[k],
        decreases n - j,
    {
        if hay[at + j] != needle[j] {
            assert(hay@.subrange(at as int, at + needle@.len())[j as int] != needle@[j as int]);
            return false;
        }
        j = j + 1;
    }
    assert(hay@.subrange(at as int, at + needle@.len()) =~= needle@);
    true
}

/// Substring search: does `needle` occur anywhere in `hay`?
pub fn contains_chars(hay: &Vec<char>, needle: &Vec<char>) -> (r: bool)
    ensures
        r == contains_seq(hay@, needle@),
{
    let hn = hay.len();
    let nn = needle.len();
    if nn > hn {
        assert(!contains_seq(hay@, needle@));
        return false;
    }
    if nn == 0 {
        assert(hay@.subrange(0, 0 + needle@.len() as int) =~= needle@);
        return true;
    }
    let last = hn - nn;
    let mut i: usize = 0;
    while i <= last
        invariant
            i <= last + 1,
            last == hay@.len() - needle@.len(),
            1 <= nn == needle@.len(),
            hn == hay@.len(),
            forall|k: int|
                0 <= k < i ==> #[trigger] hay@.subrange(k, k + needle@.len()) != needle@,
        decreases last + 1 - i,
    {
        if matches_at(hay, needle, i) {
            return true;
        }
        i = i + 1;
    }
    false
}

/// Prefix test on vectors of characters.
pub fn starts_with_chars(hay: &Vec<char>, needle: &Vec<char>) -> (r: bool)
    ensures
        r == starts_with_seq(hay@, needle@),
{
    if needle.len() > hay.len() {
        return false;
    }
    matches_at(hay, needle, 0)
}

/// Suffix test on vectors of characters.
pub fn ends_with_chars(hay: &Vec<char>, needle: &Vec<char>) -> (r: bool)
    ensures
        r == ends_with_seq(hay@, needle@),
{
    if needle.len() > hay.len() {
        return false;
    }
    matches_at(hay, needle, hay.len() - needle.len())
}

/// The whitespace characters recognized when command input and status
/// lines are trimmed: the ASCII set, a deliberate scope — the surrounding
/// whitespace of typed commands and tool output is ASCII, and exotic
/// Unicode spacing is treated as ordinary text.
pub open spec fn spec_is_space(c: char) -> bool {
    c == ' ' || c == '\t' || c == '\n' || c == '\r'
}

fn is_space_exec(c: char) -> (r: bool)
    ensures
        r == spec_is_space(c),
{
    c == ' ' || c == '\t' || c == '\n' || c == '\r'
}

/// `s` without its leading whitespace.
pub open spec fn trim_start_seq(s: Seq<char>) -> Seq<char>
    decreases s.len(),
{
    if s.len() > 0 && spec_is_space(s[0]) {
        trim_start_seq(s.drop_first())
    } else {
        s
    }
}

/// `s` without its trailing whitespace.
pub open spec fn trim_end_seq(s: Seq<char>) -> Seq<char>
    decreases s.len(),
{
    if s.len() > 0 && spec_is_space(s.last()) {
        trim_end_seq(s.drop_last())
    } else {
        s
    }
}

/// `s` without surrounding whitespace.
pub open spec fn trim_seq(s: Seq<char>) -> Seq<char> {
    trim_end_seq(trim_start_seq(s))
}

proof fn lemma_trim_start_skip(s: Seq<char>, i: int)
    requires
        0 <= i <= s.len(),
        forall|k: int| 0 <= k < i ==> spec_is_space(s[k]),
        i == s.len() || !spec_is_space(s[i]),
    ensures
        trim_start_seq(s) == s.skip(i),
    decreases i,
{
    if i == 0 {
        assert(s.skip(0) =~= s);
    } else {
        assert(spec_is_space(s[0]));
        let t = s.drop_first();
        assert(t =~= s.skip(1));
        lemma_trim_start_skip(t, i - 1);
        assert(t.skip(i - 1) =~= s.skip(i));
    }
}

proof fn lemma_trim_end_take(s: Seq<char>, j: int)
    requires
        0 <= j <= s.len(),
        forall|k: int| j <= k < s.len() ==> spec_is_space(s[k]),
        j == 0 || !spec_is_space(s[j - 1]),
    ensures
        trim_end_seq(s) == s.take(j),
    decreases s.len() - j,
{
    if j == s.len() {
        assert(s.take(j) =~= s);
    } else {
        assert(spec_is_space(s.last()));
        let t = s.drop_last();
        lemma_trim_end_take(t, j);
        assert(t.take(j) =~= s.take(j));
    }
}

/// Remove surrounding whitespace from a vector of characters.
pub fn trim_chars(v: &Vec<char>) -> (r: Vec<char>)
    ensures
        r@ == trim_seq(v@),
{
    let n = v.len();
    let mut lo: usize = 0;
    while lo < n && is_space_exec(v[lo])
        invariant
            lo <= n,
            n == v@.len(),
            forall|k: int| 0 <= k < lo ==> spec_is_space(v@[k]),
        decreases n - lo,
    {
        lo = lo + 1;
    }
    proof {
        lemma_trim_start_skip(v@, lo as int);
    }
    let mut hi: usize = n;
    while hi > lo && is_space_exec(v[hi - 1])
        invariant
            lo <= hi <= n,
            n == v@.len(),
            forall|k: int| hi <= k < n ==> spec_is_space(v@[k]),
        decreases hi,
    {
        hi = hi - 1;
    }
    proof {
        let t = v@.skip(lo as int);
        lemma_trim_end_take(t, hi - lo);
        assert(t.take(hi - lo) =~= v@.subrange(lo as int, hi as int));
    }
    let mut r: Vec<char> = Vec::new();
    let mut k: usize = lo;
    while k < hi
        invariant
            lo <= k <= hi <= n,
            n == v@.len(),
            r@ == v@.subrange(lo as int, k as int),
        decreases hi - k,
    {
        r.push(v[k]);
        assert(r@ =~= v@.subrange(lo as int, k + 1));
        k = k + 1;
    }
    r
}

/// Lexicographic order on character sequences by Unicode scalar value,
/// with a strict prefix ordered before its extensions.
pub open spec fn lex_le(a: Seq<char>, b: Seq<char>) -> bool
    decreases a.len(),
{
    if a.len() == 0 {
        true
    } else if b.len() == 0 {
        false
    } else if a[0] == b[0] {
        lex_le(a.drop_first(), b.drop_first())
    } else {
        (a[0] as u32) < (b[0] as u32)
    }
}

/// `lex_le` relates every pair of sequences one way or the other.
pub proof fn lemma_lex_le_total(a: Seq<char>, b: Seq<char>)
    ensures
        lex_le(a, b) || lex_le(b, a),
    decreases a.len(),
{
    if a.len() == 0 || b.len() == 0 {
    } else if a[0] == b[0] {
        lemma_lex_le_total(a.drop_first(), b.drop_first());
    } else {
        vstd::utf8::char_u32_cast(a[0], a[0] as u32);
        vstd::utf8::char_u32_cast(b[0], b[0] as u32);
        assert((a[0] as u32) != (b[0] as u32));
    }
}

/// Sequences related both ways by `lex_le` are equal.
pub proof fn lemma_lex_le_antisym(a: Seq<char>, b: Seq<char>)
    requires
        lex_le(a, b),
        lex_le(b, a),
    ensures
        a == b,
    decreases a.len(),
{
    if a.len() == 0 {
        assert(b.len() == 0);
        assert(a =~= b);
    } else {
        assert(b.len() > 0);
        assert(a[0] == b[0]);
        let at = a.drop_first();
        let bt = b.drop_first();
        lemma_lex_le_antisym(at, bt);
        assert(at.len() == bt.len());
        assert(a.len() == at.len() + 1 && b.len() == bt.len() + 1);
        assert forall|i: int| 0 <= i < a.len() implies a[i] == b[i] by {
            if i >= 1 {
                assert(a[i] == at[i - 1]);
                assert(b[i] == bt[i - 1]);
            }
        }
        assert(a =~= b);
    }
}

/// `lex_le` is transitive.
pub proof fn lemma_lex_le_trans(a: Seq<char>, b: Seq<char>, c: Seq<char>)
    requires
        lex_le(a, b),
        lex_le(b, c),
    ensures
        lex_le(a, c),
    decreases a.len(),
{
    if a.len() == 0 || b.len() == 0 || c.len() == 0 {
    } else if a[0] == b[0] && b[0] == c[0] {
        lemma_lex_le_trans(a.drop_first(), b.drop_first(), c.drop_first());
    }
}

/// Lexicographic comparison of two string slices.
pub fn str_lex_le(a: &str, b: &str) -> (r: bool)
    ensures
        r == lex_le(a@, b@),
{
    let an = a.unicode_len();
    let bn = b.unicode_len();
    proof {
        assert(a@.skip(0) =~= a@);
        assert(b@.skip(0) =~= b@);
    }
    let mut i: usize = 0;
    while i < an && i < bn
        invariant
            i <= an,
            i <= bn,
            an == a@.len(),
            bn == b@.len(),
            lex_le(a@, b@) == lex_le(a@.skip(i as int), b@.skip(i as int)),
        decreases an - i,
    {
        let ca = a.get_char(i);
        let cb = b.get_char(i);
        if ca != cb {
            return (ca as u32) < (cb as u32);
        }
        proof {
            assert(a@.skip(i as int).drop_first() =~= a@.skip(i + 1));
            assert(b@.skip(i as int).drop_first() =~= b@.skip(i + 1));
        }
        i = i + 1;
    }
    i == an
}

/// `s` with every non-overlapping occurrence of `pat` removed, scanning
/// left to right; an empty pattern removes nothing.
pub open spec fn remove_all_seq(s: Seq<char>, pat: Seq<char>) -> Seq<char>
    decreases s.len(),
{
    if pat.len() == 0 || s.len() < pat.len() {
        s
    } else if s.subrange(0, pat.len() as int) == pat {
        remove_all_seq(s.skip(pat.len() as int), pat)
    } else {
        seq![s[0]] + remove_all_seq(s.drop_first(), pat)
    }
}

/// Remove every occurrence of `pat` from `s`.
pub fn remove_all_chars(s: &Vec<char>, pat: &Vec<char>) -> (r: Vec<char>)
    ensures
        r@ == remove_all_seq(s@, pat@),
{
    let n = s.len();
    let pl = pat.len();
    if pl == 0 {
        let mut r: Vec<char> = Vec::new();
        let mut k: usize = 0;
        while k < n
            invariant
                k <= n,
                n == s@.len(),
                r@ == s@.take(k as int),
            decreases n - k,
        {
            r.push(s[k]);
            assert(r@ =~= s@.take(k + 1));
            k = k + 1;
        }
        assert(r@ =~= s@);
        return r;
    }
    let mut r: Vec<char> = Vec::new();
    let mut i: usize = 0;
    proof {
        assert(s@.skip(0) =~= s@);
    }
    while i < n
        invariant
            i <= n,
            n == s@.len(),
            pl == pat@.len(),
            pl >= 1,
            remove_all_seq(s@, pat@) == r@ + remove_all_seq(s@.skip(i as int), pat@),
        decreases n - i,
    {
        let ghost tail = s@.skip(i as int);
        if pl <= n - i && matches_at(s, pat, i) {
            proof {
                assert(tail.subrange(0, pat@.len() as int) =~= s@.subrange(
                    i as int,
                    i + pat@.len(),
                ));
                assert(tail.skip(pat@.len() as int) =~= s@.skip(i + pl));
            }
            i = i + pl;
        } else {
            let ghost r0 = r@;
            proof {
                if i + pl <= n {
                    assert(tail.subrange(0, pat@.len() as int) =~= s@.subrange(
                        i as int,
                        i + pat@.len(),
                    ));
                }
                assert(tail.drop_first() =~= s@.skip(i + 1));
                assert(remove_all_seq(tail, pat@) =~= seq![s@[i as int]] + remove_all_seq(
                    s@.skip(i + 1),
                    pat@,
                ));
            }
            r.push(s[i]);
            proof {
                assert(r@ + remove_all_seq(s@.skip(i + 1), pat@) =~= r0 + (seq![
                    s@[i as int],
                ] + remove_all_seq(s@.skip(i + 1), pat@)));
            }
            i = i + 1;
        }
    }
    proof {
        assert(s@.skip(n as int) =~= Seq::<char>::empty());
        assert(r@ + remove_all_seq(s@.skip(n as int), pat@) =~= r@);
    }
    r
}

/// Split at newline characters: the sequence of lines, where a trailing
/// newline opens one final empty line.
pub open spec fn split_nl(s: Seq<char>) -> Seq<Seq<char>>
    decreases s.len(),
{
    if s.len() == 0 {
        seq![Seq::<char>::empty()]
    } else if s.last() == '\n' {
        split_nl(s.drop_last()).push(Seq::empty())
    } else {
        let r = split_nl(s.drop_last());
        r.update(r.len() - 1, r.last().push(s.last()))
    }
}

/// `split_nl` always yields at least one line.
pub proof fn lemma_split_nl_len(s: Seq<char>)
    ensures
        split_nl(s).len() >= 1,
    decreases s.len(),
{
    if s.len() > 0 {
        lemma_split_nl_len(s.drop_last());
    }
}

/// The character sequences held by a sequence of character vectors.
pub open spec fn views_of(s: Seq<Vec<char>>) -> Seq<Seq<char>> {
    s.map_values(|v: Vec<char>| v@)
}

/// The deep view of a vector of character vectors is the sequence of its
/// elements' views.
pub proof fn lemma_deep_view_is_views(v: &Vec<Vec<char>>)
    ensures
        v.deep_view() == views_of(v@),
{
    assert forall|i: int| 0 <= i < v@.len() implies v.deep_view()[i] == views_of(v@)[i] by {
        assert(v@[i].deep_view() =~= v@[i]@);
    }
    assert(v.deep_view() =~= views_of(v@));
}

/// Split a vector of characters into its newline-separated lines.
pub fn split_lines_chars(s: &Vec<char>) -> (r: Vec<Vec<char>>)
    ensures
        r.deep_view() == split_nl(s@),
{
    let n = s.len();
    let mut lines: Vec<Vec<char>> = Vec::new();
    let mut cur: Vec<char> = Vec::new();
    proof {
        assert(views_of(lines@).push(cur@) =~= split_nl(s@.take(0)));
    }
    let mut i: usize = 0;
    while i < n
        invariant
            i <= n,
            n == s@.len(),
            views_of(lines@).push(cur@) == split_nl(s@.take(i as int)),
        decreases n - i,
    {
        let ghost pre = s@.take(i as int);
        proof {
            assert(s@.take(i + 1).drop_last() =~= pre);
            assert(s@.take(i + 1).last() == s@[i as int]);
            lemma_split_nl_len(pre);
        }
        let c = s[i];
        if c == '\n' {
            let ghost prev = lines@;
            let ghost curv = cur@;
            lines.push(cur);
            cur = Vec::new();
            proof {
                assert(views_of(lines@) =~= views_of(prev).push(curv));
                assert(views_of(lines@).push(cur@) =~= split_nl(pre).push(
                    Seq::<char>::empty(),
                ));
            }
        } else {
            cur.push(c);
            proof {
                let r = split_nl(pre);
                assert(views_of(lines@).push(cur@) =~= r.update(r.len() - 1, r.last().push(
                    s@[i as int],
                )));
            }
        }
        i = i + 1;
    }
    proof {
        assert(s@.take(n as int) =~= s@);
    }
    let ghost prev = lines@;
    let ghost curv = cur@;
    lines.push(cur);
    proof {
        assert(views_of(lines@) =~= views_of(prev).push(curv));
        lemma_deep_view_is_views(&lines);
    }
    lines
}

/// Split at every non-overlapping occurrence of `pat`, scanning left to
/// right; the separators themselves are dropped.  An empty pattern does
/// not split.
pub open spec fn split_pat(s: Seq<char>, pat: Seq<char>) -> Seq<Seq<char>>
    decreases s.len(),
{
    if pat.len() == 0 || s.len() < pat.len() {
        seq![s]
    } else if s.subrange(0, pat.len() as int) == pat {
        seq![Seq::<char>::empty()] + split_pat(s.skip(pat.len() as int), pat)
    } else {
        let r = split_pat(s.drop_first(), pat);
        r.update(0, seq![s[0]] + r[0])
    }
}

/// Splitting always yields at least one segment.
pub proof fn lemma_split_pat_len(s: Seq<char>, pat: Seq<char>)
    ensures
        split_pat(s, pat).len() >= 1,
    decreases s.len(),
{
    if pat.len() == 0 || s.len() < pat.len() {
    } else if s.subrange(0, pat.len() as int) == pat {
        lemma_split_pat_len(s.skip(pat.len() as int), pat);
    } else {
        lemma_split_pat_len(s.drop_first(), pat);
    }
}

/// A sequence containing the pattern splits into at least two segments.
pub proof fn lemma_split_pat_len_ge2(s: Seq<char>, pat: Seq<char>)
    requires
        pat.len() > 0,
        contains_seq(s, pat),
    ensures
        split_pat(s, pat).len() >= 2,
    decreases s.len(),
{
    let i = choose|i: int|
        0 <= i && i + pat.len() <= s.len() && #[trigger] s.subrange(i, i + pat.len()) == pat;
    assert(s.len() >= pat.len());
    if s.subrange(0, pat.len() as int) == pat {
        lemma_split_pat_len(s.skip(pat.len() as int), pat);
    } else {
        assert(i >= 1);
        let t = s.drop_first();
        assert(t.subrange(i - 1, i - 1 + pat.len()) =~= s.subrange(i, i + pat.len()));
        assert(contains_seq(t, pat));
        lemma_split_pat_len_ge2(t, pat);
        lemma_split_pat_len(t, pat);
    }
}

/// Prepend characters onto the first segment of a split.
pub open spec fn prepend_first(c: Seq<char>, r: Seq<Seq<char>>) -> Seq<Seq<char>> {
    r.update(0, c + r[0])
}

/// Split a vector of characters at every occurrence of `pat`.
pub fn split_pat_chars(s: &Vec<char>, pat: &Vec<char>) -> (r: Vec<Vec<char>>)
    requires
        pat@.len() > 0,
    ensures
        r.deep_view() == split_pat(s@, pat@),
{
    let n = s.len();
    let pl = pat.len();
    let mut done: Vec<Vec<char>> = Vec::new();
    let mut cur: Vec<char> = Vec::new();
    let mut i: usize = 0;
    proof {
        assert(s@.skip(0) =~= s@);
        lemma_split_pat_len(s@, pat@);
        assert(views_of(done@) + prepend_first(cur@, split_pat(s@, pat@)) =~~= split_pat(
            s@,
            pat@,
        ));
    }
    while i < n
        invariant
            i <= n,
            n == s@.len(),
            pl == pat@.len(),
            pl >= 1,
            split_pat(s@, pat@) == views_of(done@) + prepend_first(
                cur@,
                split_pat(s@.skip(i as int), pat@),
            ),
        decreases n - i,
    {
        let ghost tail = s@.skip(i as int);
        proof {
            lemma_split_pat_len(tail, pat@);
            lemma_split_pat_len(s@.skip(i + 1), pat@);
            lemma_split_pat_len(s@.skip(i + pl), pat@);
        }
        if pl <= n - i && matches_at(s, pat, i) {
            let ghost prevd = done@;
            let ghost prevc = cur@;
            proof {
                assert(tail.subrange(0, pat@.len() as int) =~= s@.subrange(
                    i as int,
                    i + pat@.len(),
                ));
                assert(tail.skip(pat@.len() as int) =~= s@.skip(i + pl));
            }
            done.push(cur);
            cur = Vec::new();
            proof {
                let rest = split_pat(s@.skip(i + pl), pat@);
                assert(views_of(done@) =~= views_of(prevd).push(prevc));
                assert(prepend_first(prevc, seq![Seq::<char>::empty()] + rest) =~~= seq![prevc]
                    + prepend_first(cur@, rest));
                assert(views_of(done@) + prepend_first(cur@, rest) =~~= views_of(prevd) + (seq![
                    prevc,
                ] + prepend_first(cur@, rest)));
            }
            i = i + pl;
        } else {
            let ghost prevc = cur@;
            proof {
                if i + pl <= n {
                    assert(tail.subrange(0, pat@.len() as int) =~= s@.subrange(
                        i as int,
                        i + pat@.len(),
                    ));
                }
                assert(tail.drop_first() =~= s@.skip(i + 1));
                assert(split_pat(tail, pat@) =~~= prepend_first(
                    seq![s@[i as int]],
                    split_pat(s@.skip(i + 1), pat@),
                ));
            }
            cur.push(s[i]);
            proof {
                let rest = split_pat(s@.skip(i + 1), pat@);
                assert(prepend_first(
                    prevc,
                    prepend_first(seq![s@[i as int]], rest),
                ) =~~= prepend_first(cur@, rest));
            }
            i = i + 1;
        }
    }
    proof {
        assert(s@.skip(n as int) =~= Seq::<char>::empty());
        assert(split_pat(Seq::<char>::empty(), pat@) =~~= seq![Seq::<char>::empty()]);
        assert(prepend_first(cur@, seq![Seq::<char>::empty()]) =~~= seq![cur@]);
    }
    let ghost prevd = done@;
    let ghost prevc = cur@;
    done.push(cur);
    proof {
        assert(views_of(done@) =~= views_of(prevd).push(prevc));
        assert(views_of(done@) =~= split_pat(s@, pat@));
        lemma_deep_view_is_views(&done);
    }
    done
}

/// The whitespace-separated tokens of a sequence: maximal runs of
/// non-whitespace characters, in order.
pub open spec fn ws_tokens(s: Seq<char>) -> Seq<Seq<char>>
    decreases s.len(),
{
    if s.len() == 0 {
        Seq::empty()
    } else if spec_is_space(s.last()) {
        ws_tokens(s.drop_last())
    } else if s.len() == 1 || spec_is_space(s[s.len() - 2]) {
        ws_tokens(s.drop_last()).push(seq![s.last()])
    } else {
        let r = ws_tokens(s.drop_last());
        r.update(r.len() - 1, r.last().push(s.last()))
    }
}

/// Split a vector of characters into its whitespace-separated tokens.
pub fn ws_tokens_chars(s: &Vec<char>) -> (r: Vec<Vec<char>>)
    ensures
        r.deep_view() == ws_tokens(s@),
{
    let n = s.len();
    let mut done: Vec<Vec<char>> = Vec::new();
    let mut cur: Vec<char> = Vec::new();
    let mut i: usize = 0;
    proof {
        assert(ws_tokens(s@.take(0)) =~= Seq::<Seq<char>>::empty());
        assert(views_of(done@) =~= Seq::<Seq<char>>::empty());
    }
    while i < n
        invariant
            i <= n,
            n == s@.len(),
            (cur@.len() > 0) == (i > 0 && !spec_is_space(s@[i as int - 1])),
            views_of(done@) + (if cur@.len() > 0 {
                seq![cur@]
            } else {
                Seq::<Seq<char>>::empty()
            }) == ws_tokens(s@.take(i as int)),
        decreases n - i,
    {
        proof {
            assert(s@.take(i + 1).drop_last() =~= s@.take(i as int));
            assert(s@.take(i + 1).last() == s@[i as int]);
            if i > 0 {
                assert(s@.take(i + 1)[i - 1] == s@[i as int - 1]);
            }
        }
        let c = s[i];
        if is_space_exec(c) {
            if cur.len() > 0 {
                let ghost prevd = done@;
                let ghost prevc = cur@;
                done.push(cur);
                cur = Vec::new();
                proof {
                    assert(views_of(done@) =~= views_of(prevd).push(prevc));
                    assert(views_of(done@) + Seq::<Seq<char>>::empty() =~= views_of(prevd) + seq![
                        prevc,
                    ]);
                }
            } else {
                proof {
                    assert(views_of(done@) + Seq::<Seq<char>>::empty() =~= ws_tokens(
                        s@.take(i + 1),
                    ));
                }
            }
        } else {
            if cur.len() == 0 {
                cur.push(c);
                proof {
                    assert(views_of(done@) + seq![cur@] =~~= ws_tokens(s@.take(i as int)).push(
                        seq![s@[i as int]],
                    ));
                }
            } else {
                let ghost prevc = cur@;
                cur.push(c);
                proof {
                    let r = ws_tokens(s@.take(i as int));
                    assert(r == views_of(done@) + seq![prevc]);
                    assert(r.len() == views_of(done@).len() + 1);
                    assert(r.last() == prevc);
                    assert(r.update(r.len() - 1, r.last().push(s@[i as int])) =~= views_of(done@)
                        + seq![cur@]);
                }
            }
        }
        i = i + 1;
    }
    proof {
        assert(s@.take(n as int) =~= s@);
    }
    if cur.len() > 0 {
        let ghost prevd = done@;
        let ghost prevc = cur@;
        done.push(cur);
        proof {
            assert(views_of(done@) =~= views_of(prevd).push(prevc));
            assert(views_of(done@) =~= ws_tokens(s@));
        }
    } else {
        proof {
            assert(views_of(done@) =~= ws_tokens(s@));
        }
    }
    proof {
        lemma_deep_view_is_views(&done);
    }
    done
}

/// Relies on `String::push`: it appends exactly the given character to the
/// string.
pub assume_specification[ String::push ](s: &mut String, ch: char)
    ensures
        final(s)@ == old(s)@.push(ch),
;

/// Build a `String` from a vector of characters.
pub fn chars_to_string(v: &Vec<char>) -> (r: String)
    ensures
        r@ == v@,
{
    let n = v.len();
    let mut r = String::new();
    let mut i: usize = 0;
    while i < n
        invariant
            i <= n,
            n == v@.len(),
            r@ == v@.take(i as int),
        decreases n - i,
    {
        r.push(v[i]);
        assert(r@ =~= v@.take(i + 1));
        i = i + 1;
    }
    assert(r@ =~= v@);
    r
}

/// Two patterns that disagree at some shared index cannot both be
/// prefixes of one sequence.
pub proof fn lemma_prefix_excludes(l: Seq<char>, p1: Seq<char>, p2: Seq<char>, m: int)
    requires
        starts_with_seq(l, p1),
        0 <= m < p1.len(),
        m < p2.len(),
        p1[m] != p2[m],
    ensures
        !starts_with_seq(l, p2),
{
    assert(l.subrange(0, p1.len() as int)[m] == l[m]);
    if starts_with_seq(l, p2) {
        assert(l.subrange(0, p2.len() as int)[m] == l[m]);
    }
}

/// Character-for-character equality of two vectors.
pub fn eq_chars(a: &Vec<char>, b: &Vec<char>) -> (r: bool)
    ensures
        r == (a@ == b@),
{
    if a.len() != b.len() {
        return false;
    }
    let n = a.len();
    let mut i: usize = 0;
    while i < n
        invariant
            i <= n,
            n == a@.len(),
            n == b@.len(),
            forall|k: int| 0 <= k < i ==> a@[k] == b@[k],
        decreases n - i,
    {
        if a[i] != b[i] {
            return false;
        }
        i = i + 1;
    }
    assert(a@ =~= b@);
    true
}

} // verus!
