//! Verified character-sequence primitives: ASCII case folding, substring
//! search and prefix tests. The log classifier and several parsers are
//! specified and proved on top of these.

use vstd::prelude::*;
use vstd::string::StrSliceExecFns;

verus! {

/// ASCII lower-casing of a single character; everything outside 'A'..'Z'
/// is left unchanged.
pub open spec fn lower_char(c: char) -> char {
    match c {
        'A' => 'a',
        'B' => 'b',
        'C' => 'c',
        'D' => 'd',
        'E' => 'e',
        'F' => 'f',
        'G' => 'g',
        'H' => 'h',
        'I' => 'i',
        'J' => 'j',
        'K' => 'k',
        'L' => 'l',
        'M' => 'm',
        'N' => 'n',
        'O' => 'o',
        'P' => 'p',
        'Q' => 'q',
        'R' => 'r',
        'S' => 's',
        'T' => 't',
        'U' => 'u',
        'V' => 'v',
        'W' => 'w',
        'X' => 'x',
        'Y' => 'y',
        'Z' => 'z',
        _ => c,
    }
}

/// ASCII lower-casing of a whole character sequence.
pub open spec fn fold_case(s: Seq<char>) -> Seq<char> {
    s.map_values(|c: char| lower_char(c))
}

/// `needle` occurs as a contiguous subsequence of `hay`.
pub open spec fn contains_seq(hay: Seq<char>, needle: Seq<char>) -> bool {
    exists|i: int|
        0 <= i && i + needle.len() <= hay.len() && #[trigger] hay.subrange(
            i,
            i + needle.len() as int,
        ) == needle
}

/// `hay` begins with `needle`.
pub open spec fn starts_with_seq(hay: Seq<char>, needle: Seq<char>) -> bool {
    needle.len() <= hay.len() && hay.subrange(0, needle.len() as int) == needle
}

pub fn to_lower_char(c: char) -> (r: char)
    ensures
        r == lower_char(c),
{
    match c {
        'A' => 'a',
        'B' => 'b',
        'C' => 'c',
        'D' => 'd',
        'E' => 'e',
        'F' => 'f',
        'G' => 'g',
        'H' => 'h',
        'I' => 'i',
        'J' => 'j',
        'K' => 'k',
        'L' => 'l',
        'M' => 'm',
        'N' => 'n',
        'O' => 'o',
        'P' => 'p',
        'Q' => 'q',
        'R' => 'r',
        'S' => 's',
        'T' => 't',
        'U' => 'u',
        'V' => 'v',
        'W' => 'w',
        'X' => 'x',
        'Y' => 'y',
        'Z' => 'z',
        _ => c,
    }
}

/// The characters of `s`, ASCII lower-cased.
pub fn lowercase_chars(s: &str) -> (v: Vec<char>)
    ensures
        v@ == fold_case(s@),
{
    let n = s.unicode_len();
    let mut v: Vec<char> = Vec::new();
    let mut i: usize = 0;
    while i < n
        invariant
            n == s@.len(),
            i <= n,
            v@.len() == i,
            forall|j: int| 0 <= j < i ==> v@[j] == lower_char(s@[j]),
        decreases n - i,
    {
        let c = s.get_char(i);
        v.push(to_lower_char(c));
        i = i + 1;
    }
    proof {
        assert(v@ =~= fold_case(s@));
    }
    v
}

/// The characters of `s`, unchanged.
pub fn chars_of(s: &str) -> (v: Vec<char>)
    ensures
        v@ == s@,
{
    let n = s.unicode_len();
    let mut v: Vec<char> = Vec::new();
    let mut i: usize = 0;
    while i < n
        invariant
            n == s@.len(),
            i <= n,
            v@.len() == i,
            forall|j: int| 0 <= j < i ==> v@[j] == s@[j],
        decreases n - i,
    {
        let c = s.get_char(i);
        v.push(c);
        i = i + 1;
    }
    proof {
        assert(v@ =~= s@);
    }
    v
}

/// `needle` matches `hay` exactly at position `at`.
fn matches_at(hay: &Vec<char>, needle: &Vec<char>, at: usize) -> (r: bool)
    requires
        at + needle@.len() <= hay@.len(),
    ensures
        r == (hay@.subrange(at as int, at as int + needle@.len() as int) == needle@),
{
    let n = needle.len();
    let h = hay.len();
    let mut j: usize = 0;
    while j < n
        invariant
            n == needle@.len(),
            h == hay@.len(),
            at + n <= h,
            j <= n,
            forall|k: int| 0 <= k < j ==> hay@[at + k] == needle@[k],
        decreases n - j,
    {
        if hay[at + j] != needle[j] {
            proof {
                let sub = hay@.subrange(at as int, at as int + needle@.len() as int);
                assert(sub[j as int] == hay@[at + j]);
            }
            return false;
        }
        j = j + 1;
    }
    proof {
        assert(hay@.subrange(at as int, at as int + needle@.len() as int) =~= needle@);
    }
    true
}

/// Substring search (case-sensitive; callers fold case first where needed).
pub fn contains_chars(hay: &Vec<char>, needle: &Vec<char>) -> (r: bool)
    ensures
        r == contains_seq(hay@, needle@),
{
    let n = needle.len();
    let h = hay.len();
    if n > h {
        return false;
    }
    if n == 0 {
        proof {
            assert(hay@.subrange(0, 0 + needle@.len() as int) =~= needle@);
            assert(contains_seq(hay@, needle@));
        }
        return true;
    }
    let last = h - n;
    let mut i: usize = 0;
    while i <= last
        invariant
            n == needle@.len(),
            h == hay@.len(),
            1 <= n <= h,
            last == h - n,
            i <= last + 1,
            forall|k: int|
                0 <= k < i ==> #[trigger] hay@.subrange(k, k + needle@.len() as int)
                    != needle@,
        decreases last + 1 - i,
    {
        if matches_at(hay, needle, i) {
            return true;
        }
        i = i + 1;
    }
    proof {
        assert forall|k: int|
            0 <= k && k + needle@.len() <= hay@.len() implies #[trigger] hay@.subrange(
            k,
            k + needle@.len() as int,
        ) != needle@ by {
            assert(k < i);
        }
    }
    false
}

/// Index of the first occurrence of `c` in `s`, or -1.
pub open spec fn spec_first_index(s: Seq<char>, c: char) -> int
    decreases s.len(),
{
    if s.len() == 0 {
        -1
    } else if s[0] == c {
        0
    } else {
        let rest = spec_first_index(s.skip(1), c);
        if rest < 0 {
            -1
        } else {
            1 + rest
        }
    }
}

/// Index of the last occurrence of `c` in `s`, or -1.
pub open spec fn spec_last_index(s: Seq<char>, c: char) -> int
    decreases s.len(),
{
    if s.len() == 0 {
        -1
    } else if s.last() == c {
        s.len() - 1
    } else {
        spec_last_index(s.drop_last(), c)
    }
}

pub proof fn lemma_first_index_props(s: Seq<char>, c: char)
    ensures
        spec_first_index(s, c) == -1 ==> (forall|j: int| 0 <= j < s.len() ==> s[j] != c),
        spec_first_index(s, c) != -1 ==> {
            let i = spec_first_index(s, c);
            &&& 0 <= i < s.len()
            &&& s[i] == c
            &&& forall|j: int| 0 <= j < i ==> s[j] != c
        },
    decreases s.len(),
{
    if s.len() != 0 && s[0] != c {
        lemma_first_index_props(s.skip(1), c);
        let rest = spec_first_index(s.skip(1), c);
        if rest == -1 {
            assert forall|j: int| 0 <= j < s.len() implies s[j] != c by {
                if j > 0 {
                    assert(s.skip(1)[j - 1] == s[j]);
                }
            }
        } else {
            assert(s.skip(1)[rest] == s[1 + rest]);
            assert forall|j: int| 0 <= j < 1 + rest implies s[j] != c by {
                if j > 0 {
                    assert(s.skip(1)[j - 1] == s[j]);
                }
            }
        }
    }
}

pub proof fn lemma_last_index_props(s: Seq<char>, c: char)
    ensures
        spec_last_index(s, c) == -1 ==> (forall|j: int| 0 <= j < s.len() ==> s[j] != c),
        spec_last_index(s, c) != -1 ==> {
            let i = spec_last_index(s, c);
            &&& 0 <= i < s.len()
            &&& s[i] == c
            &&& forall|j: int| i < j < s.len() ==> s[j] != c
        },
    decreases s.len(),
{
    if s.len() != 0 && s.last() != c {
        lemma_last_index_props(s.drop_last(), c);
        let rest = spec_last_index(s.drop_last(), c);
        if rest == -1 {
            assert forall|j: int| 0 <= j < s.len() implies s[j] != c by {
                if j < s.len() - 1 {
                    assert(s.drop_last()[j] == s[j]);
                }
            }
        } else {
            assert(s.drop_last()[rest] == s[rest]);
            assert forall|j: int| rest < j < s.len() implies s[j] != c by {
                if j < s.len() - 1 {
                    assert(s.drop_last()[j] == s[j]);
                }
            }
        }
    }
}

/// First occurrence of `c`, scanning forward.
pub fn find_char(v: &Vec<char>, c: char) -> (r: Option<usize>)
    ensures
        r matches Some(i) ==> i < v@.len() && i as int == spec_first_index(v@, c),
        r is None ==> spec_first_index(v@, c) == -1,
{
    let n = v.len();
    let mut i: usize = 0;
    while i < n
        invariant
            n == v@.len(),
            i <= n,
            forall|j: int| 0 <= j < i ==> v@[j] != c,
        decreases n - i,
    {
        if v[i] == c {
            proof {
                lemma_first_index_props(v@, c);
                let fi = spec_first_index(v@, c);
                if fi == -1 {
                    assert(v@[i as int] != c);
                } else {
                    if fi < i {
                        assert(v@[fi] != c);
                    }
                    if fi > i {
                        assert(v@[i as int] != c);
                    }
                }
            }
            return Some(i);
        }
        i = i + 1;
    }
    proof {
        lemma_first_index_props(v@, c);
        let fi = spec_first_index(v@, c);
        if fi != -1 {
            assert(v@[fi] != c);
        }
    }
    None
}

/// Last occurrence of `c`, scanning backward.
pub fn rfind_char(v: &Vec<char>, c: char) -> (r: Option<usize>)
    ensures
        r matches Some(i) ==> i < v@.len() && i as int == spec_last_index(v@, c),
        r is None ==> spec_last_index(v@, c) == -1,
{
    let n = v.len();
    let mut i: usize = n;
    while i > 0
        invariant
            n == v@.len(),
            i <= n,
            forall|j: int| i <= j < n ==> v@[j] != c,
        decreases i,
    {
        i = i - 1;
        if v[i] == c {
            proof {
                lemma_last_index_props(v@, c);
                let li = spec_last_index(v@, c);
                if li == -1 {
                    assert(v@[i as int] != c);
                } else {
                    if li < i {
                        assert(v@[i as int] != c);
                    }
                    if li > i {
                        assert(v@[li] != c);
                    }
                }
            }
            return Some(i);
        }
    }
    proof {
        lemma_last_index_props(v@, c);
        let li = spec_last_index(v@, c);
        if li != -1 {
            assert(v@[li] != c);
        }
    }
    None
}

/// The pieces of `s` between occurrences of `sep` (empty pieces kept, as
/// many pieces as separators plus one).
pub open spec fn spec_split(s: Seq<char>, sep: char) -> Seq<Seq<char>>
    decreases s.len() via spec_split_decreases
{
    let i = spec_first_index(s, sep);
    if i < 0 {
        seq![s]
    } else {
        seq![s.subrange(0, i)] + spec_split(s.skip(i + 1), sep)
    }
}

#[via_fn]
proof fn spec_split_decreases(s: Seq<char>, sep: char) {
    lemma_first_index_props(s, sep);
}

/// Split `s` at every occurrence of `sep`.
pub fn split_char(s: &str, sep: char) -> (r: Vec<String>)
    ensures
        r.deep_view() == spec_split(s@, sep),
{
    let chars = chars_of(s);
    let n = chars.len();
    let mut parts: Vec<String> = Vec::new();
    let mut start: usize = 0;
    let mut i: usize = 0;
    proof {
        assert(s@.skip(0) =~= s@);
        assert(parts.deep_view() + spec_split(s@, sep) =~= spec_split(s@, sep));
    }
    while i < n
        invariant
            n == s@.len(),
            chars@ == s@,
            start <= i <= n,
            spec_split(s@, sep) == parts.deep_view() + spec_split(s@.skip(start as int), sep),
            forall|j: int| start <= j < i ==> s@[j] != sep,
        decreases n - i,
    {
        if chars[i] == sep {
            let ghost dv_before = parts.deep_view();
            let ghost tail = s@.skip(start as int);
            proof {
                lemma_first_index_props(tail, sep);
                let fi = spec_first_index(tail, sep);
                assert(tail[i - start] == s@[i as int]);
                if fi == -1 {
                    assert(tail[i - start] != sep);
                }
                if fi != -1 && fi < i - start {
                    assert(s@[start + fi] == tail[fi]);
                }
                if fi != -1 && fi > i - start {
                    assert(tail[i - start] != sep);
                }
                assert(fi == i - start);
                assert(tail.subrange(0, i - start) =~= s@.subrange(start as int, i as int));
                assert(tail.skip(i - start + 1) =~= s@.skip(i + 1));
            }
            let piece = s.substring_char(start, i).to_owned();
            parts.push(piece);
            proof {
                assert(parts.deep_view() =~= dv_before.push(s@.subrange(start as int, i as int)));
                assert(dv_before + (seq![s@.subrange(start as int, i as int)] + spec_split(
                    s@.skip(i + 1),
                    sep,
                )) =~= parts.deep_view() + spec_split(s@.skip(i + 1), sep));
            }
            start = i + 1;
        }
        i = i + 1;
    }
    let ghost dv_before = parts.deep_view();
    let ghost tail = s@.skip(start as int);
    proof {
        lemma_first_index_props(tail, sep);
        let fi = spec_first_index(tail, sep);
        if fi != -1 {
            assert(tail[fi] == s@[start + fi]);
        }
        assert(fi == -1);
        assert(tail =~= s@.subrange(start as int, n as int));
    }
    let last_piece = s.substring_char(start, n).to_owned();
    parts.push(last_piece);
    proof {
        assert(parts.deep_view() =~= dv_before.push(tail));
        assert(dv_before + seq![tail] =~= parts.deep_view());
        assert(parts.deep_view() =~= spec_split(s@, sep));
    }
    parts
}

pub open spec fn spec_join_tail(parts: Seq<Seq<char>>, sep: Seq<char>) -> Seq<char>
    decreases parts.len(),
{
    if parts.len() == 0 {
        Seq::empty()
    } else {
        sep + parts[0] + spec_join_tail(parts.skip(1), sep)
    }
}

/// The pieces joined with `sep` between each pair.
pub open spec fn spec_join(parts: Seq<Seq<char>>, sep: Seq<char>) -> Seq<char> {
    if parts.len() == 0 {
        Seq::empty()
    } else {
        parts[0] + spec_join_tail(parts.skip(1), sep)
    }
}

/// Join the strings with `sep` between each pair.
pub fn join_strings(parts: &Vec<String>, sep: &str) -> (r: String)
    ensures
        r@ == spec_join(parts.deep_view(), sep@),
{
    let n = parts.len();
    let mut acc = String::new();
    if n == 0 {
        return acc;
    }
    acc.append(parts[0].as_str());
    proof {
        assert(acc@ =~= parts.deep_view()[0]);
    }
    let mut i: usize = 1;
    while i < n
        invariant
            1 <= i <= n,
            n == parts@.len(),
            acc@ + spec_join_tail(parts.deep_view().skip(i as int), sep@) == spec_join(
                parts.deep_view(),
                sep@,
            ),
        decreases n - i,
    {
        let ghost dv = parts.deep_view();
        let ghost acc_before = acc@;
        proof {
            assert(dv.skip(i as int)[0] == dv[i as int]);
            assert(dv.skip(i as int).skip(1) =~= dv.skip(i + 1));
        }
        acc.append(sep);
        acc.append(parts[i].as_str());
        proof {
            assert(acc@ =~= acc_before + sep@ + dv[i as int]);
            assert(acc_before + (sep@ + dv[i as int] + spec_join_tail(dv.skip(i + 1), sep@)) =~= acc@
                + spec_join_tail(dv.skip(i + 1), sep@));
        }
        i = i + 1;
    }
    proof {
        assert(spec_join_tail(parts.deep_view().skip(n as int), sep@) =~= Seq::<char>::empty());
        assert(acc@ + Seq::<char>::empty() =~= acc@);
    }
    acc
}

/// Blank characters for trimming purposes.
pub open spec fn is_blank(c: char) -> bool {
    c == ' ' || c == '\t'
}

/// `s` without leading blanks.
pub open spec fn spec_trim_start(s: Seq<char>) -> Seq<char>
    decreases s.len(),
{
    if s.len() > 0 && is_blank(s[0]) {
        spec_trim_start(s.skip(1))
    } else {
        s
    }
}

/// `s` without trailing blanks.
pub open spec fn spec_trim_end(s: Seq<char>) -> Seq<char>
    decreases s.len(),
{
    if s.len() > 0 && is_blank(s.last()) {
        spec_trim_end(s.drop_last())
    } else {
        s
    }
}

/// `s` without leading and trailing blanks.
pub open spec fn spec_trim(s: Seq<char>) -> Seq<char> {
    spec_trim_end(spec_trim_start(s))
}

/// `n` copies of `c`.
pub open spec fn char_repeat(c: char, n: int) -> Seq<char> {
    Seq::new(n as nat, |i: int| c)
}

/// `s` without any trailing copies of `c`.
pub open spec fn spec_trim_end_matching(s: Seq<char>, c: char) -> Seq<char>
    decreases s.len(),
{
    if s.len() > 0 && s.last() == c {
        spec_trim_end_matching(s.drop_last(), c)
    } else {
        s
    }
}

/// Strip every trailing copy of `c`.
pub fn trim_end_char(s: &str, c: char) -> (r: String)
    ensures
        r@ == spec_trim_end_matching(s@, c),
{
    let chars = chars_of(s);
    let mut end: usize = chars.len();
    proof {
        assert(s@.subrange(0, s@.len() as int) =~= s@);
    }
    while end > 0 && chars[end - 1] == c
        invariant
            end <= s@.len(),
            chars@ == s@,
            spec_trim_end_matching(s@, c) == spec_trim_end_matching(
                s@.subrange(0, end as int),
                c,
            ),
        decreases end,
    {
        proof {
            assert(s@.subrange(0, end as int).last() == s@[end - 1]);
            assert(s@.subrange(0, end as int).drop_last() =~= s@.subrange(0, end - 1));
        }
        end = end - 1;
    }
    proof {
        let prefix = s@.subrange(0, end as int);
        if end > 0 {
            assert(prefix.last() == s@[end - 1]);
        }
        assert(spec_trim_end_matching(prefix, c) == prefix);
    }
    s.substring_char(0, end).to_owned()
}

/// The non-empty pieces, in order.
pub open spec fn spec_nonempty_pieces(pieces: Seq<Seq<char>>) -> Seq<Seq<char>>
    decreases pieces.len(),
{
    if pieces.len() == 0 {
        Seq::empty()
    } else {
        let rest = spec_nonempty_pieces(pieces.skip(1));
        if pieces[0].len() > 0 {
            seq![pieces[0]] + rest
        } else {
            rest
        }
    }
}

pub proof fn lemma_nonempty_pieces_concat(a: Seq<Seq<char>>, b: Seq<Seq<char>>)
    ensures
        spec_nonempty_pieces(a + b) == spec_nonempty_pieces(a) + spec_nonempty_pieces(b),
    decreases a.len(),
{
    if a.len() == 0 {
        assert(a + b =~= b);
        assert(spec_nonempty_pieces(a) + spec_nonempty_pieces(b) =~= spec_nonempty_pieces(b));
    } else {
        assert((a + b).len() > 0);
        assert((a + b)[0] == a[0]);
        assert((a + b).skip(1) =~= a.skip(1) + b);
        lemma_nonempty_pieces_concat(a.skip(1), b);
        if a[0].len() > 0 {
            assert(seq![a[0]] + (spec_nonempty_pieces(a.skip(1)) + spec_nonempty_pieces(b))
                =~= (seq![a[0]] + spec_nonempty_pieces(a.skip(1))) + spec_nonempty_pieces(b));
        }
    }
}

/// `s` without leading and trailing blanks.
pub fn trim_blanks(s: &str) -> (r: String)
    ensures
        r@ == spec_trim(s@),
{
    let chars = chars_of(s);
    let n = chars.len();
    let mut ts: usize = 0;
    proof {
        assert(s@.skip(0) =~= s@);
    }
    while ts < n && (chars[ts] == ' ' || chars[ts] == '\t')
        invariant
            ts <= n,
            n == s@.len(),
            chars@ == s@,
            spec_trim_start(s@) == spec_trim_start(s@.skip(ts as int)),
        decreases n - ts,
    {
        proof {
            assert(s@.skip(ts as int)[0] == s@[ts as int]);
            assert(s@.skip(ts as int).skip(1) =~= s@.skip(ts + 1));
        }
        ts = ts + 1;
    }
    proof {
        let rest = s@.skip(ts as int);
        if rest.len() > 0 {
            assert(rest[0] == s@[ts as int]);
        }
        assert(spec_trim_start(s@) == rest);
        assert(rest =~= s@.subrange(ts as int, n as int));
    }
    let mut te: usize = n;
    while te > ts && (chars[te - 1] == ' ' || chars[te - 1] == '\t')
        invariant
            ts <= te <= n,
            n == s@.len(),
            chars@ == s@,
            spec_trim_end(s@.subrange(ts as int, n as int)) == spec_trim_end(
                s@.subrange(ts as int, te as int),
            ),
        decreases te,
    {
        proof {
            assert(s@.subrange(ts as int, te as int).last() == s@[te - 1]);
            assert(s@.subrange(ts as int, te as int).drop_last() =~= s@.subrange(
                ts as int,
                te - 1,
            ));
        }
        te = te - 1;
    }
    proof {
        let value = s@.subrange(ts as int, te as int);
        if te > ts {
            assert(value.last() == s@[te - 1]);
        }
        assert(spec_trim_end(value) == value);
    }
    s.substring_char(ts, te).to_owned()
}

/// Character-wise string equality.
pub fn str_eq(a: &str, b: &str) -> (r: bool)
    ensures
        r == (a@ == b@),
{
    let n = a.unicode_len();
    let m = b.unicode_len();
    if n != m {
        return false;
    }
    let mut i: usize = 0;
    while i < n
        invariant
            n == a@.len(),
            n == b@.len(),
            i <= n,
            forall|j: int| 0 <= j < i ==> a@[j] == b@[j],
        decreases n - i,
    {
        if a.get_char(i) != b.get_char(i) {
            return false;
        }
        i = i + 1;
    }
    proof {
        assert(a@ =~= b@);
    }
    true
}

/// Prefix test.
pub fn starts_with_chars(hay: &Vec<char>, needle: &Vec<char>) -> (r: bool)
    ensures
        r == starts_with_seq(hay@, needle@),
{
    if needle.len() > hay.len() {
        return false;
    }
    matches_at(hay, needle, 0)
}

} // verus!
