//! Text as sequences of characters.
//!
//! Specifications speak of `Seq<char>`; the executable helpers work on `&[char]`
//! and convert to and from `&str` and `String` at the edge of the library.

use vstd::prelude::*;
use vstd::slice::{slice_subrange, slice_to_vec};

verus! {

/// `String::push`: the string grows by the given character at its end.
pub assume_specification[ String::push ](s: &mut String, c: char)
    ensures
        final(s)@ == old(s)@.push(c),
;

// ── Conversions ─────────────────────────────────────────────────────────────

/// The characters of `s`, in order.
pub fn chars_of(s: &str) -> (out: Vec<char>)
    ensures
        out@ == s@,
{
    let mut out: Vec<char> = Vec::new();
    for c in it: s.chars()
        invariant
            out@ == it.seq().take(it.index() as int),
            it.seq() == s@,
    {
        out.push(c);
    }
    out
}

/// The string with exactly the characters of `s`.
pub fn string_of(s: &[char]) -> (out: String)
    ensures
        out@ == s@,
{
    let mut out: String = String::new();
    let mut i: usize = 0;
    while i < s.len()
        invariant
            i <= s.len(),
            out@ == s@.take(i as int),
        decreases s.len() - i,
    {
        out.push(s[i]);
        proof {
            assert(s@.take(i as int + 1) =~= s@.take(i as int).push(s@[i as int]));
        }
        i += 1;
    }
    proof {
        assert(s@.take(s@.len() as int) =~= s@);
    }
    out
}

/// The characters of an optional string.
pub open spec fn opt_view(s: Option<String>) -> Option<Seq<char>> {
    match s {
        Some(v) => Some(v@),
        None => None,
    }
}

/// The characters of each string of a vector.
pub open spec fn views(v: Seq<String>) -> Seq<Seq<char>> {
    Seq::new(v.len(), |i: int| v[i]@)
}

/// A copy of an optional string.
pub fn clone_opt(s: &Option<String>) -> (out: Option<String>)
    ensures
        opt_view(out) == opt_view(*s),
        out == *s,
{
    match s {
        Some(v) => Some(v.clone()),
        None => None,
    }
}

/// Whether two strings hold the same characters.
pub fn str_eq(a: &str, b: &str) -> (r: bool)
    ensures
        r == (a@ == b@),
{
    let ca = chars_of(a);
    let cb = chars_of(b);
    same(ca.as_slice(), cb.as_slice())
}

/// Whether two character slices are equal.
pub fn same(a: &[char], b: &[char]) -> (r: bool)
    ensures
        r == (a@ == b@),
{
    if a.len() != b.len() {
        return false;
    }
    let mut i: usize = 0;
    while i < a.len()
        invariant
            i <= a.len(),
            a.len() == b.len(),
            forall|j: int| 0 <= j < i ==> a@[j] == b@[j],
        decreases a.len() - i,
    {
        if a[i] != b[i] {
            return false;
        }
        i += 1;
    }
    proof {
        assert(a@ =~= b@);
    }
    true
}

// ── Character classes ───────────────────────────────────────────────────────

/// The characters with the Unicode property `White_Space`.
pub open spec fn is_white(c: char) -> bool {
    ||| '\u{9}' <= c <= '\u{d}'
    ||| c == ' '
    ||| c == '\u{85}'
    ||| c == '\u{a0}'
    ||| c == '\u{1680}'
    ||| '\u{2000}' <= c <= '\u{200a}'
    ||| c == '\u{2028}'
    ||| c == '\u{2029}'
    ||| c == '\u{202f}'
    ||| c == '\u{205f}'
    ||| c == '\u{3000}'
}

/// Whether `c` has the Unicode property `White_Space`.
pub fn is_whitespace(c: char) -> (r: bool)
    ensures
        r == is_white(c),
{
    ('\u{9}' <= c && c <= '\u{d}') || c == ' ' || c == '\u{85}' || c == '\u{a0}' || c == '\u{1680}'
        || ('\u{2000}' <= c && c <= '\u{200a}') || c == '\u{2028}' || c == '\u{2029}' || c
        == '\u{202f}' || c == '\u{205f}' || c == '\u{3000}'
}

/// The ten ASCII digits.
pub open spec fn is_digit(c: char) -> bool {
    '0' <= c <= '9'
}

/// `c` with an ASCII capital letter made small.
pub open spec fn lower_char(c: char) -> char {
    if 'A' <= c <= 'Z' {
        ((c as u8) + 32) as char
    } else {
        c
    }
}

/// `s` with every ASCII capital letter made small.
pub open spec fn lower(s: Seq<char>) -> Seq<char> {
    Seq::new(s.len(), |i: int| lower_char(s[i]))
}

/// `s` with every ASCII capital letter made small.
pub fn to_ascii_lowercase(s: &[char]) -> (out: Vec<char>)
    ensures
        out@ == lower(s@),
{
    let mut out: Vec<char> = Vec::new();
    let mut i: usize = 0;
    while i < s.len()
        invariant
            i <= s.len(),
            out@.len() == i,
            forall|j: int| 0 <= j < i ==> out@[j] == lower_char(s@[j]),
        decreases s.len() - i,
    {
        let c = s[i];
        if 'A' <= c && c <= 'Z' {
            out.push(((c as u8) + 32) as char);
        } else {
            out.push(c);
        }
        i += 1;
    }
    proof {
        assert(out@ =~= lower(s@));
    }
    out
}

/// The characters of ASCII.
pub open spec fn is_ascii(c: char) -> bool {
    c <= '\u{7f}'
}

/// What `str::to_lowercase` makes of a text.
pub uninterp spec fn lowercase(s: Seq<char>) -> Seq<char>;

/// `str::to_lowercase`: the result is a function of the text, named [`lowercase`]; text
/// that is all ASCII has its capital letters made small. Not stated: the Unicode table
/// of the other letters.
pub assume_specification[ str::to_lowercase ](s: &str) -> (r: String)
    ensures
        r@ == lowercase(s@),
        (forall|i: int| 0 <= i < s@.len() ==> is_ascii(#[trigger] s@[i])) ==> r@ == lower(s@),
;

/// `c` in lower case, which may take several characters. An ASCII letter has its small
/// letter; any other character has what [`lowercase`] says of it alone.
pub open spec fn folded_char(c: char) -> Seq<char> {
    if is_ascii(c) {
        seq![lower_char(c)]
    } else {
        lowercase(seq![c])
    }
}

/// `s` in lower case, character by character, so that what stands around a character
/// does not matter.
pub open spec fn folded(s: Seq<char>) -> Seq<char>
    decreases s.len(),
{
    if s.len() == 0 {
        Seq::empty()
    } else {
        folded(s.drop_last()) + folded_char(s.last())
    }
}

/// `s` in lower case, character by character.
pub fn fold_case(s: &[char]) -> (out: Vec<char>)
    ensures
        out@ == folded(s@),
{
    let mut out: Vec<char> = Vec::new();
    let mut i: usize = 0;
    proof {
        assert(s@.take(0) =~= Seq::<char>::empty());
    }
    while i < s.len()
        invariant
            i <= s.len(),
            out@ == folded(s@.take(i as int)),
        decreases s.len() - i,
    {
        let ghost before = out@;
        let one = slice_subrange(s, i, i + 1);
        proof {
            assert(one@ =~= seq![s@[i as int]]);
            assert(s@.take(i as int + 1).drop_last() =~= s@.take(i as int));
        }
        let text = string_of(one);
        let low = chars_of(text.as_str().to_lowercase().as_str());
        push_all(&mut out, low.as_slice());
        proof {
            if is_ascii(s@[i as int]) {
                assert(low@ =~= seq![lower_char(s@[i as int])]);
            }
        }
        i += 1;
    }
    proof {
        assert(s@.take(s@.len() as int) =~= s@);
    }
    out
}

/// The lower case of two texts in a row is their lower cases in a row.
pub proof fn lemma_folded_join(a: Seq<char>, b: Seq<char>)
    ensures
        folded(a + b) == folded(a) + folded(b),
    decreases b.len(),
{
    if b.len() == 0 {
        assert(a + b =~= a);
        assert(folded(a) + folded(b) =~= folded(a));
    } else {
        lemma_folded_join(a, b.drop_last());
        assert((a + b).drop_last() =~= a + b.drop_last());
        assert((a + b).last() == b.last());
        assert(folded(a + b) =~= folded(a) + folded(b));
    }
}

/// What stands in a text stands in its lower case, in lower case.
pub proof fn lemma_folded_sub(s: Seq<char>, pat: Seq<char>)
    requires
        has_sub(s, pat),
    ensures
        has_sub(folded(s), folded(pat)),
{
    let i = choose|i: int| occurs_at(s, pat, i);
    let head = s.take(i);
    let tail = s.skip(i + pat.len());
    assert(s =~= head + pat + tail);
    lemma_folded_join(head + pat, tail);
    lemma_folded_join(head, pat);
    let at = folded(head).len() as int;
    assert(folded(s).subrange(at, at + folded(pat).len()) =~= folded(pat));
    assert(occurs_at(folded(s), folded(pat), at));
}

/// Texts that differ only in the case of ASCII letters have the same lower case.
pub proof fn lemma_folded_ignores_case(a: Seq<char>, b: Seq<char>)
    requires
        lower(a) == lower(b),
    ensures
        folded(a) == folded(b),
    decreases a.len(),
{
    assert(lower(a).len() == a.len() && lower(b).len() == b.len());
    if a.len() > 0 {
        let n = a.len() - 1;
        assert(lower(a.drop_last()) =~= lower(a).take(n));
        assert(lower(b.drop_last()) =~= lower(b).take(n));
        assert(lower(a)[n] == lower(b)[n]);
        lemma_folded_ignores_case(a.drop_last(), b.drop_last());
        assert(lower(a)[n] == lower_char(a[n]));
        assert(lower(b)[n] == lower_char(b[n]));
        assert(folded_char(a[n]) == folded_char(b[n]));
    }
}

/// `s` with every `from` replaced by `to`.
pub open spec fn replaced(s: Seq<char>, from: char, to: char) -> Seq<char> {
    Seq::new(
        s.len(),
        |i: int|
            if s[i] == from {
                to
            } else {
                s[i]
            },
    )
}

/// `s` with every `from` replaced by `to`.
pub fn replace_char(s: &[char], from: char, to: char) -> (out: Vec<char>)
    ensures
        out@ == replaced(s@, from, to),
{
    let mut out: Vec<char> = Vec::new();
    let mut i: usize = 0;
    while i < s.len()
        invariant
            i <= s.len(),
            out@.len() == i,
            forall|j: int|
                0 <= j < i ==> out@[j] == (if s@[j] == from {
                    to
                } else {
                    s@[j]
                }),
        decreases s.len() - i,
    {
        if s[i] == from {
            out.push(to);
        } else {
            out.push(s[i]);
        }
        i += 1;
    }
    proof {
        assert(out@ =~= replaced(s@, from, to));
    }
    out
}

// ── Trimming ────────────────────────────────────────────────────────────────

/// `s` without its leading whitespace.
pub open spec fn trim_start(s: Seq<char>) -> Seq<char>
    decreases s.len(),
{
    if s.len() > 0 && is_white(s[0]) {
        trim_start(s.drop_first())
    } else {
        s
    }
}

/// `s` without its trailing whitespace.
pub open spec fn trim_end(s: Seq<char>) -> Seq<char>
    decreases s.len(),
{
    if s.len() > 0 && is_white(s.last()) {
        trim_end(s.drop_last())
    } else {
        s
    }
}

/// `s` without leading and trailing whitespace.
pub open spec fn trimmed(s: Seq<char>) -> Seq<char> {
    trim_end(trim_start(s))
}

/// `s` without its trailing dots.
pub open spec fn without_dots(s: Seq<char>) -> Seq<char>
    decreases s.len(),
{
    if s.len() > 0 && s.last() == '.' {
        without_dots(s.drop_last())
    } else {
        s
    }
}

/// `s` without its leading whitespace.
pub fn skip_whitespace(s: &[char]) -> (r: &[char])
    ensures
        r@ == trim_start(s@),
{
    let mut i: usize = 0;
    proof {
        assert(s@.subrange(0, s@.len() as int) =~= s@);
    }
    while i < s.len() && is_whitespace(s[i])
        invariant
            i <= s.len(),
            trim_start(s@) == trim_start(s@.subrange(i as int, s@.len() as int)),
        decreases s.len() - i,
    {
        proof {
            let rest = s@.subrange(i as int, s@.len() as int);
            assert(rest.drop_first() =~= s@.subrange(i as int + 1, s@.len() as int));
        }
        i += 1;
    }
    slice_subrange(s, i, s.len())
}

/// `s` without leading and trailing whitespace.
pub fn trim(s: &[char]) -> (r: &[char])
    ensures
        r@ == trimmed(s@),
{
    let t = skip_whitespace(s);
    let mut n: usize = t.len();
    proof {
        assert(t@.subrange(0, n as int) =~= t@);
    }
    while n > 0 && is_whitespace(t[n - 1])
        invariant
            n <= t.len(),
            trim_end(t@) == trim_end(t@.subrange(0, n as int)),
        decreases n,
    {
        proof {
            let rest = t@.subrange(0, n as int);
            assert(rest.drop_last() =~= t@.subrange(0, n as int - 1));
        }
        n -= 1;
    }
    slice_subrange(t, 0, n)
}

/// `s` without its trailing dots.
pub fn trim_dots(s: &[char]) -> (r: &[char])
    ensures
        r@ == without_dots(s@),
{
    let mut n: usize = s.len();
    proof {
        assert(s@.subrange(0, n as int) =~= s@);
    }
    while n > 0 && s[n - 1] == '.'
        invariant
            n <= s.len(),
            without_dots(s@) == without_dots(s@.subrange(0, n as int)),
        decreases n,
    {
        proof {
            let rest = s@.subrange(0, n as int);
            assert(rest.drop_last() =~= s@.subrange(0, n as int - 1));
        }
        n -= 1;
    }
    slice_subrange(s, 0, n)
}

// ── Searching ───────────────────────────────────────────────────────────────

/// `pat` stands in `s` at position `i`.
pub open spec fn occurs_at(s: Seq<char>, pat: Seq<char>, i: int) -> bool {
    &&& 0 <= i
    &&& i + pat.len() <= s.len()
    &&& s.subrange(i, i + pat.len()) == pat
}

/// `pat` stands somewhere in `s`.
pub open spec fn has_sub(s: Seq<char>, pat: Seq<char>) -> bool {
    exists|i: int| occurs_at(s, pat, i)
}

/// `i` is the first position of `pat` in `s`.
pub open spec fn is_first_at(s: Seq<char>, pat: Seq<char>, i: int) -> bool {
    occurs_at(s, pat, i) && forall|j: int| 0 <= j < i ==> !occurs_at(s, pat, j)
}

/// The first position of `pat` in `s`, if it occurs.
pub open spec fn first_at(s: Seq<char>, pat: Seq<char>) -> Option<int> {
    if has_sub(s, pat) {
        Some(choose|i: int| is_first_at(s, pat, i))
    } else {
        None
    }
}

/// A first position is the value of [`first_at`].
pub proof fn lemma_first_at(s: Seq<char>, pat: Seq<char>, i: int)
    requires
        is_first_at(s, pat, i),
    ensures
        first_at(s, pat) == Some(i),
{
    let k = choose|k: int| is_first_at(s, pat, k);
    assert(is_first_at(s, pat, k));
    if k < i {
        assert(!occurs_at(s, pat, k));
    }
    if i < k {
        assert(!occurs_at(s, pat, i));
    }
}

/// Whether `s` begins with `pat`.
pub fn starts_with(s: &[char], pat: &[char]) -> (r: bool)
    ensures
        r == pat@.is_prefix_of(s@),
{
    if pat.len() > s.len() {
        return false;
    }
    let r = same(slice_subrange(s, 0, pat.len()), pat);
    proof {
        assert(s@.subrange(0, pat@.len() as int) == pat@ <==> pat@.is_prefix_of(s@)) by {
            if pat@.is_prefix_of(s@) {
                assert(s@.subrange(0, pat@.len() as int) =~= pat@);
            }
        }
    }
    r
}

/// The first position of `pat` in `s`.
pub fn find(s: &[char], pat: &[char]) -> (r: Option<usize>)
    ensures
        match r {
            Some(i) => first_at(s@, pat@) == Some(i as int) && occurs_at(s@, pat@, i as int),
            None => first_at(s@, pat@) is None && !has_sub(s@, pat@),
        },
{
    if pat.len() > s.len() {
        return None;
    }
    let last: usize = s.len() - pat.len();
    let mut i: usize = 0;
    loop
        invariant
            last == s.len() - pat.len(),
            i <= last,
            forall|j: int| 0 <= j < i ==> !occurs_at(s@, pat@, j),
        ensures
            forall|j: int| 0 <= j <= last ==> !occurs_at(s@, pat@, j),
        decreases last - i,
    {
        if same(slice_subrange(s, i, i + pat.len()), pat) {
            proof {
                assert(occurs_at(s@, pat@, i as int));
                lemma_first_at(s@, pat@, i as int);
            }
            return Some(i);
        }
        proof {
            assert(!occurs_at(s@, pat@, i as int));
        }
        if i == last {
            break;
        }
        i += 1;
    }
    proof {
        assert forall|j: int| !occurs_at(s@, pat@, j) by {
            if occurs_at(s@, pat@, j) {
                assert(0 <= j <= last);
            }
        }
    }
    None
}

/// Whether `pat` stands somewhere in `s`.
pub fn contains(s: &[char], pat: &[char]) -> (r: bool)
    ensures
        r == has_sub(s@, pat@),
{
    match find(s, pat) {
        Some(_) => true,
        None => false,
    }
}


/// The first position of `c` in `s`.
pub fn find_char(s: &[char], c: char) -> (r: Option<usize>)
    ensures
        match r {
            Some(i) => i < s@.len() && s@[i as int] == c && !s@.take(i as int).contains(c),
            None => !s@.contains(c),
        },
{
    let mut i: usize = 0;
    while i < s.len()
        invariant
            i <= s.len(),
            forall|j: int| 0 <= j < i ==> s@[j] != c,
        decreases s.len() - i,
    {
        if s[i] == c {
            return Some(i);
        }
        i += 1;
    }
    None
}

/// The last position of `c` in `s`.
pub fn rfind_char(s: &[char], c: char) -> (r: Option<usize>)
    ensures
        match r {
            Some(i) => i < s@.len() && s@[i as int] == c && !s@.skip(i as int + 1).contains(c),
            None => !s@.contains(c),
        },
{
    let mut i: usize = s.len();
    while i > 0
        invariant
            i <= s.len(),
            forall|j: int| i <= j < s.len() ==> s@[j] != c,
        decreases i,
    {
        if s[i - 1] == c {
            return Some(i - 1);
        }
        i -= 1;
    }
    None
}

/// The text before and after the first `c`, if `s` holds one.
pub open spec fn cut(s: Seq<char>, c: char) -> Option<(Seq<char>, Seq<char>)>
    decreases s.len(),
{
    if s.len() == 0 {
        None
    } else if s[0] == c {
        Some((Seq::empty(), s.drop_first()))
    } else {
        match cut(s.drop_first(), c) {
            Some((a, b)) => Some((seq![s[0]] + a, b)),
            None => None,
        }
    }
}

/// [`cut`] splits at the first `c`.
pub proof fn lemma_cut(s: Seq<char>, c: char, i: int)
    requires
        0 <= i < s.len(),
        s[i] == c,
        !s.take(i).contains(c),
    ensures
        cut(s, c) == Some((s.take(i), s.skip(i + 1))),
    decreases s.len(),
{
    if i == 0 {
        assert(s.take(0) =~= Seq::empty());
        assert(s.skip(1) =~= s.drop_first());
    } else {
        let t = s.drop_first();
        assert(s.take(i)[0] == s[0]);
        assert(s[0] != c);
        assert(t.take(i - 1) =~= s.take(i).drop_first());
        assert(!t.take(i - 1).contains(c)) by {
            if t.take(i - 1).contains(c) {
                let u = t.take(i - 1);
                let k = choose|k: int| 0 <= k < u.len() && u[k] == c;
                assert(s.take(i)[k + 1] == c);
            }
        }
        lemma_cut(t, c, i - 1);
        assert(seq![s[0]] + t.take(i - 1) =~= s.take(i));
        assert(t.skip(i) =~= s.skip(i + 1));
    }
}

/// [`cut`] finds nothing where there is no `c`.
pub proof fn lemma_cut_none(s: Seq<char>, c: char)
    requires
        !s.contains(c),
    ensures
        cut(s, c) is None,
    decreases s.len(),
{
    if s.len() > 0 {
        assert(s.contains(s[0]));
        assert(!s.drop_first().contains(c)) by {
            if s.drop_first().contains(c) {
                let u = s.drop_first();
                let k = choose|k: int| 0 <= k < u.len() && u[k] == c;
                assert(s[k + 1] == c);
            }
        }
        lemma_cut_none(s.drop_first(), c);
    }
}

/// The text before and after the first `c`, if `s` holds one.
pub fn split_once(s: &[char], c: char) -> (r: Option<(&[char], &[char])>)
    ensures
        match r {
            Some(p) => cut(s@, c) == Some((p.0@, p.1@)),
            None => cut(s@, c) is None,
        },
{
    match find_char(s, c) {
        Some(i) => {
            let n: usize = s.len();
            let a = slice_subrange(s, 0, i);
            let b = slice_subrange(s, i + 1, n);
            proof {
                lemma_cut(s@, c, i as int);
                assert(a@ =~= s@.take(i as int));
                assert(b@ =~= s@.skip(i as int + 1));
            }
            Some((a, b))
        },
        None => {
            proof {
                lemma_cut_none(s@, c);
            }
            None
        },
    }
}

// ── Splitting ───────────────────────────────────────────────────────────────

/// The pieces of `s` between the separators `c`; always at least one piece.
pub open spec fn pieces(s: Seq<char>, c: char) -> Seq<Seq<char>>
    decreases s.len(),
{
    if s.len() == 0 {
        seq![Seq::empty()]
    } else if s.last() == c {
        pieces(s.drop_last(), c).push(Seq::empty())
    } else {
        let head = pieces(s.drop_last(), c);
        head.drop_last().push(head.last().push(s.last()))
    }
}

/// There is always at least one piece.
pub proof fn lemma_pieces_nonempty(s: Seq<char>, c: char)
    ensures
        pieces(s, c).len() >= 1,
    decreases s.len(),
{
    if s.len() > 0 {
        lemma_pieces_nonempty(s.drop_last(), c);
    }
}

/// The views of a vector of character vectors.
pub open spec fn char_views(v: Seq<Vec<char>>) -> Seq<Seq<char>> {
    Seq::new(v.len(), |i: int| v[i]@)
}

/// The pieces of `s` between the separators `c`.
pub fn split_char(s: &[char], c: char) -> (out: Vec<Vec<char>>)
    ensures
        char_views(out@) == pieces(s@, c),
{
    let mut out: Vec<Vec<char>> = Vec::new();
    let mut cur: Vec<char> = Vec::new();
    let mut i: usize = 0;
    proof {
        assert(s@.take(0) =~= Seq::<char>::empty());
        assert(char_views(out@).push(cur@) =~= seq![Seq::<char>::empty()]);
    }
    while i < s.len()
        invariant
            i <= s.len(),
            char_views(out@).push(cur@) == pieces(s@.take(i as int), c),
        decreases s.len() - i,
    {
        let ghost before = char_views(out@).push(cur@);
        let ghost old_cur = cur@;
        let ghost old_out = char_views(out@);
        proof {
            assert(s@.take(i as int + 1).drop_last() =~= s@.take(i as int));
            assert(before.drop_last() =~= old_out);
        }
        if s[i] == c {
            out.push(cur);
            cur = Vec::new();
            proof {
                assert(char_views(out@) =~= before);
                assert(cur@ =~= Seq::<char>::empty());
            }
        } else {
            cur.push(s[i]);
        }
        i += 1;
    }
    out.push(cur);
    proof {
        assert(s@.take(s@.len() as int) =~= s@);
        let last = out@.last()@;
        assert(char_views(out@) =~= char_views(out@.drop_last()).push(last));
    }
    out
}

/// The leading characters of `s` that are not whitespace.
pub open spec fn leading_word(s: Seq<char>) -> Seq<char>
    decreases s.len(),
{
    if s.len() > 0 && !is_white(s[0]) {
        seq![s[0]] + leading_word(s.drop_first())
    } else {
        Seq::empty()
    }
}

/// What follows the leading word of `s`.
pub open spec fn after_word(s: Seq<char>) -> Seq<char>
    decreases s.len(),
{
    if s.len() > 0 && !is_white(s[0]) {
        after_word(s.drop_first())
    } else {
        s
    }
}

/// [`trim_start`] never lengthens its argument.
pub proof fn lemma_trim_start_len(s: Seq<char>)
    ensures
        trim_start(s).len() <= s.len(),
        trim_start(s).len() > 0 ==> !is_white(trim_start(s)[0]),
    decreases s.len(),
{
    if s.len() > 0 && is_white(s[0]) {
        lemma_trim_start_len(s.drop_first());
    }
}

/// Cutting off the leading word shortens a text that begins with one.
pub proof fn lemma_after_word_len(s: Seq<char>)
    ensures
        after_word(s).len() <= s.len(),
        s.len() > 0 && !is_white(s[0]) ==> after_word(s).len() < s.len(),
    decreases s.len(),
{
    if s.len() > 0 && !is_white(s[0]) {
        lemma_after_word_len(s.drop_first());
    }
}

/// The words of `s`: its maximal runs of characters that are not whitespace.
pub open spec fn words(s: Seq<char>) -> Seq<Seq<char>>
    decreases s.len(),
{
    let t = trim_start(s);
    if t.len() == 0 {
        Seq::empty()
    } else {
        proof {
            lemma_trim_start_len(s);
            lemma_after_word_len(t);
        }
        seq![leading_word(t)] + words(after_word(t))
    }
}

/// Splits `s` after its leading word.
pub fn take_word(s: &[char]) -> (r: (&[char], &[char]))
    ensures
        r.0@ == leading_word(s@),
        r.1@ == after_word(s@),
{
    let mut i: usize = 0;
    proof {
        assert(s@.skip(0) =~= s@);
        assert(s@.take(0) + leading_word(s@) =~= leading_word(s@));
    }
    while i < s.len() && !is_whitespace(s[i])
        invariant
            i <= s.len(),
            leading_word(s@) == s@.take(i as int) + leading_word(s@.skip(i as int)),
            after_word(s@) == after_word(s@.skip(i as int)),
        decreases s.len() - i,
    {
        proof {
            let rest = s@.skip(i as int);
            assert(rest.drop_first() =~= s@.skip(i as int + 1));
            assert(s@.take(i as int) + leading_word(rest) =~= s@.take(i as int + 1)
                + leading_word(rest.drop_first()));
        }
        i += 1;
    }
    let a = slice_subrange(s, 0, i);
    let b = slice_subrange(s, i, s.len());
    proof {
        assert(a@ =~= s@.take(i as int));
        assert(b@ =~= s@.skip(i as int));
        assert(leading_word(s@) =~= s@.take(i as int));
    }
    (a, b)
}

/// The words of `s`.
pub fn split_whitespace(s: &[char]) -> (out: Vec<Vec<char>>)
    ensures
        char_views(out@) == words(s@),
{
    let mut out: Vec<Vec<char>> = Vec::new();
    let mut rest: &[char] = skip_whitespace(s);
    proof {
        lemma_trim_start_len(s@);
        lemma_words_trim(s@);
        assert(char_views(out@) + words(rest@) =~= words(s@));
    }
    while rest.len() > 0
        invariant
            char_views(out@) + words(rest@) == words(s@),
            rest@.len() > 0 ==> !is_white(rest@[0]),
        decreases rest@.len(),
    {
        let ghost before = char_views(out@);
        let ghost r0 = rest@;
        let (w, tail) = take_word(rest);
        let word = slice_to_vec(w);
        out.push(word);
        proof {
            lemma_after_word_len(r0);
            lemma_trim_start_len(tail@);
            lemma_words_trim(tail@);
            assert(trim_start(r0) =~= r0);
            assert(words(r0) == seq![leading_word(r0)] + words(tail@));
            assert(char_views(out@) =~= before.push(leading_word(r0)));
            assert(before + words(r0) =~= char_views(out@) + words(tail@));
        }
        rest = skip_whitespace(tail);
    }
    proof {
        assert(trim_start(rest@) =~= rest@);
        assert(words(rest@) =~= Seq::empty());
        assert(char_views(out@) + words(rest@) =~= char_views(out@));
    }
    out
}

/// Leading whitespace does not change the words.
pub proof fn lemma_words_trim(s: Seq<char>)
    ensures
        words(trim_start(s)) == words(s),
{
    lemma_trim_start_len(s);
    let t = trim_start(s);
    assert(trim_start(t) == t) by {
        if t.len() > 0 {
            assert(!is_white(t[0]));
        }
    }
}

// ── Numbers ─────────────────────────────────────────────────────────────────

/// The number that the digits of `s` write in base ten.
pub open spec fn digits_value(s: Seq<char>) -> nat
    decreases s.len(),
{
    if s.len() == 0 {
        0
    } else {
        digits_value(s.drop_last()) * 10 + (s.last() as int - '0' as int) as nat
    }
}

/// Every character of `s` is an ASCII digit.
pub open spec fn all_digits(s: Seq<char>) -> bool {
    forall|i: int| 0 <= i < s.len() ==> is_digit(#[trigger] s[i])
}

/// `s` without a leading plus sign.
pub open spec fn without_plus(s: Seq<char>) -> Seq<char> {
    if s.len() > 0 && s[0] == '+' {
        s.drop_first()
    } else {
        s
    }
}

/// The unsigned number that `s` writes: an optional plus sign and at least one
/// digit, with a value of at most `max`.
pub open spec fn uint(s: Seq<char>, max: nat) -> Option<nat> {
    let d = without_plus(s);
    if d.len() > 0 && all_digits(d) && digits_value(d) <= max {
        Some(digits_value(d))
    } else {
        None
    }
}

/// Reads an unsigned number of at most `max`.
pub fn parse_uint(s: &[char], max: u32) -> (r: Option<u32>)
    ensures
        match r {
            Some(v) => uint(s@, max as nat) == Some(v as nat) && v <= max,
            None => uint(s@, max as nat) is None,
        },
{
    let d: &[char] = if s.len() > 0 && s[0] == '+' {
        slice_subrange(s, 1, s.len())
    } else {
        s
    };
    proof {
        assert(d@ =~= without_plus(s@));
    }
    if d.len() == 0 {
        return None;
    }
    let cap: u64 = max as u64 + 1;
    let mut v: u64 = 0;
    let mut i: usize = 0;
    while i < d.len()
        invariant
            i <= d.len(),
            d@ == without_plus(s@),
            cap == max + 1,
            v <= cap,
            forall|j: int| 0 <= j < i ==> is_digit(#[trigger] d@[j]),
            v < cap ==> digits_value(d@.take(i as int)) == v,
            v == cap ==> digits_value(d@.take(i as int)) >= cap,
        decreases d.len() - i,
    {
        let c = d[i];
        if !('0' <= c && c <= '9') {
            proof {
                assert(!is_digit(d@[i as int]));
            }
            return None;
        }
        let k: u64 = (c as u64) - ('0' as u64);
        proof {
            assert(d@.take(i as int + 1).drop_last() =~= d@.take(i as int));
        }
        let next: u64 = v * 10 + k;
        if next < cap {
            v = next;
        } else {
            v = cap;
        }
        i += 1;
    }
    proof {
        assert(d@.take(d@.len() as int) =~= d@);
    }
    if v < cap {
        Some(v as u32)
    } else {
        None
    }
}

/// The base-ten digits of `n`.
pub open spec fn decimal(n: nat) -> Seq<char>
    decreases n,
{
    if n < 10 {
        seq![('0' as int + n) as char]
    } else {
        decimal(n / 10).push(('0' as int + n % 10) as char)
    }
}

/// The base-ten digits of `n`.
pub fn to_decimal(n: u64) -> (out: Vec<char>)
    ensures
        out@ == decimal(n as nat),
    decreases n,
{
    if n < 10 {
        let mut out: Vec<char> = Vec::new();
        out.push((48u8 + n as u8) as char);
        out
    } else {
        let mut out = to_decimal(n / 10);
        out.push((48u8 + (n % 10) as u8) as char);
        out
    }
}

/// Appends the characters of `s` to `out`.
pub fn push_all(out: &mut Vec<char>, s: &[char])
    ensures
        final(out)@ == old(out)@ + s@,
{
    let mut i: usize = 0;
    proof {
        assert(old(out)@ + s@.take(0) =~= old(out)@);
    }
    while i < s.len()
        invariant
            i <= s.len(),
            out@ == old(out)@ + s@.take(i as int),
        decreases s.len() - i,
    {
        out.push(s[i]);
        proof {
            assert(s@.take(i as int + 1) =~= s@.take(i as int).push(s@[i as int]));
            assert(old(out)@ + s@.take(i as int + 1) =~= (old(out)@ + s@.take(i as int)).push(
                s@[i as int],
            ));
        }
        i += 1;
    }
    proof {
        assert(s@.take(s@.len() as int) =~= s@);
    }
}

/// Appends the characters of `s` to `out`.
pub fn push_str(out: &mut Vec<char>, s: &str)
    ensures
        final(out)@ == old(out)@ + s@,
{
    let c = chars_of(s);
    push_all(out, c.as_slice());
}

// ── Laws ────────────────────────────────────────────────────────────────────

/// Trimming cuts whitespace off both ends, all of it, and nothing else.
pub proof fn law_trimming_cuts_only_whitespace(s: Seq<char>)
    ensures
        ({
            let t = trimmed(s);
            &&& t.len() > 0 ==> !is_white(t[0]) && !is_white(t.last())
            &&& exists|k: int|
                {
                    &&& 0 <= k && k + t.len() <= s.len()
                    &&& #[trigger] s.subrange(k, k + t.len()) == t
                    &&& forall|j: int|
                        0 <= j < k || k + t.len() <= j < s.len() ==> is_white(#[trigger] s[j])
                }
        }),
{
    let u = trim_start(s);
    let t = trimmed(s);
    lemma_trim_start_cuts(s);
    lemma_trim_end_cuts(u);
    let k = s.len() - u.len();
    assert(s.subrange(k, k + t.len()) =~= t);
    assert forall|j: int| 0 <= j < k || k + t.len() <= j < s.len() implies is_white(
        #[trigger] s[j],
    ) by {
        if j >= k {
            assert(u[j - k] == s[j]);
        }
    }
}

proof fn lemma_trim_start_cuts(s: Seq<char>)
    ensures
        ({
            let u = trim_start(s);
            &&& u.len() <= s.len()
            &&& u == s.skip(s.len() - u.len())
            &&& u.len() > 0 ==> !is_white(u[0])
            &&& forall|j: int| 0 <= j < s.len() - u.len() ==> is_white(#[trigger] s[j])
        }),
    decreases s.len(),
{
    if s.len() > 0 && is_white(s[0]) {
        let rest = s.drop_first();
        lemma_trim_start_cuts(rest);
        let u = trim_start(s);
        assert(u =~= s.skip(s.len() - u.len()));
        assert forall|j: int| 0 <= j < s.len() - u.len() implies is_white(#[trigger] s[j]) by {
            if j > 0 {
                assert(rest[j - 1] == s[j]);
            }
        }
    } else {
        assert(s.skip(0) =~= s);
    }
}

proof fn lemma_trim_end_cuts(s: Seq<char>)
    ensures
        ({
            let t = trim_end(s);
            &&& t.len() <= s.len()
            &&& t == s.take(t.len() as int)
            &&& t.len() > 0 ==> !is_white(t.last())
            &&& t.len() > 0 ==> t[0] == s[0]
            &&& forall|j: int| t.len() <= j < s.len() ==> is_white(#[trigger] s[j])
        }),
    decreases s.len(),
{
    if s.len() > 0 && is_white(s.last()) {
        let rest = s.drop_last();
        lemma_trim_end_cuts(rest);
        let t = trim_end(s);
        assert(t =~= s.take(t.len() as int));
        assert forall|j: int| t.len() <= j < s.len() implies is_white(#[trigger] s[j]) by {
            if j < rest.len() {
                assert(rest[j] == s[j]);
            }
        }
    } else {
        assert(s.take(s.len() as int) =~= s);
    }
}

/// Trailing dots go, all of them, and nothing else.
pub proof fn law_only_trailing_dots_go(s: Seq<char>)
    ensures
        ({
            let t = without_dots(s);
            &&& t.len() <= s.len()
            &&& t == s.take(t.len() as int)
            &&& t.len() > 0 ==> t.last() != '.'
            &&& forall|j: int| t.len() <= j < s.len() ==> #[trigger] s[j] == '.'
        }),
    decreases s.len(),
{
    if s.len() > 0 && s.last() == '.' {
        let rest = s.drop_last();
        law_only_trailing_dots_go(rest);
        let t = without_dots(s);
        assert(t =~= s.take(t.len() as int));
        assert forall|j: int| t.len() <= j < s.len() implies #[trigger] s[j] == '.' by {
            if j < rest.len() {
                assert(rest[j] == s[j]);
            }
        }
    } else {
        assert(s.take(s.len() as int) =~= s);
    }
}

/// Lower case moves the 26 capital letters by 32 and leaves every other character.
pub proof fn law_capitals_become_small(s: Seq<char>, i: int)
    requires
        0 <= i < s.len(),
    ensures
        lower(s).len() == s.len(),
        65 <= s[i] as int <= 90 ==> lower(s)[i] as int == s[i] as int + 32,
        !(65 <= s[i] as int <= 90) ==> lower(s)[i] == s[i],
        s[i] as int <= 127 ==> folded_char(s[i]) == seq![lower(s)[i]],
        s[i] as int > 127 ==> folded_char(s[i]) == lowercase(seq![s[i]]),
{
}

/// Replacing touches exactly the characters that are to be replaced.
pub proof fn law_replacing_touches_only_its_character(
    s: Seq<char>,
    from: char,
    to: char,
    i: int,
)
    requires
        0 <= i < s.len(),
    ensures
        replaced(s, from, to).len() == s.len(),
        s[i] == from ==> replaced(s, from, to)[i] == to,
        s[i] != from ==> replaced(s, from, to)[i] == s[i],
{
}

/// One text stands in another exactly when the other is it with something before and
/// something behind, each possibly nothing; the first place is the least.
pub proof fn law_occurrence_splits_the_text(
    s: Seq<char>,
    pat: Seq<char>,
    before: Seq<char>,
    behind: Seq<char>,
)
    ensures
        s == before + pat + behind ==> has_sub(s, pat),
        has_sub(s, pat) ==> exists|i: int|
            {
                &&& 0 <= i && i + pat.len() <= s.len()
                &&& s == #[trigger] s.take(i) + pat + s.skip(i + pat.len())
            },
        s == before + pat + behind ==> (first_at(s, pat) matches Some(i) && 0 <= i <= before.len()
            && s.subrange(i, i + pat.len()) == pat),
        !has_sub(s, pat) ==> first_at(s, pat) is None,
{
    if s == before + pat + behind {
        let at = before.len() as int;
        assert(s.subrange(at, at + pat.len()) =~= pat);
        assert(occurs_at(s, pat, before.len() as int));
        lemma_first_exists(s, pat, before.len() as int);
    }
    if has_sub(s, pat) {
        let i = choose|i: int| occurs_at(s, pat, i);
        assert(s =~= s.take(i) + pat + s.skip(i + pat.len()));
    }
}

proof fn lemma_first_exists(s: Seq<char>, pat: Seq<char>, i: int)
    requires
        occurs_at(s, pat, i),
    ensures
        first_at(s, pat) matches Some(k) && 0 <= k <= i && is_first_at(s, pat, k),
    decreases i,
{
    if exists|j: int| 0 <= j < i && occurs_at(s, pat, j) {
        let j = choose|j: int| 0 <= j < i && occurs_at(s, pat, j);
        lemma_first_exists(s, pat, j);
    } else {
        assert(is_first_at(s, pat, i));
        lemma_first_at(s, pat, i);
    }
}

/// Cutting splits at the first separator, and fails exactly when there is none.
pub proof fn law_cut_splits_at_the_first_separator(s: Seq<char>, c: char)
    ensures
        match cut(s, c) {
            Some((a, b)) => s == a.push(c) + b && !a.contains(c),
            None => !s.contains(c),
        },
    decreases s.len(),
{
    if s.len() > 0 {
        if s[0] == c {
            assert(s =~= Seq::<char>::empty().push(c) + s.drop_first());
        } else {
            let rest = s.drop_first();
            law_cut_splits_at_the_first_separator(rest, c);
            match cut(rest, c) {
                Some((a, b)) => {
                    let head = seq![s[0]] + a;
                    assert(s =~= head.push(c) + b) by {
                        assert(s =~= seq![s[0]] + rest);
                    }
                    assert(!head.contains(c)) by {
                        if head.contains(c) {
                            let k = choose|k: int| 0 <= k < head.len() && head[k] == c;
                            assert(a[k - 1] == c);
                        }
                    }
                },
                None => {
                    if s.contains(c) {
                        let k = choose|k: int| 0 <= k < s.len() && s[k] == c;
                        assert(rest[k - 1] == c);
                    }
                },
            }
        }
    }
}

/// Splitting cuts at every separator and nowhere else: a text without one is its only
/// piece, and the pieces of two texts around a separator are the pieces of both.
pub proof fn law_pieces_split_at_every_separator(a: Seq<char>, b: Seq<char>, c: char)
    ensures
        !a.contains(c) ==> pieces(a, c) == seq![a],
        pieces(a.push(c) + b, c) == pieces(a, c) + pieces(b, c),
    decreases a.len(), b.len(),
{
    lemma_pieces_nonempty(a, c);
    if !a.contains(c) {
        lemma_single_piece(a, c);
    }
    lemma_pieces_around(a, b, c);
}

proof fn lemma_single_piece(a: Seq<char>, c: char)
    requires
        !a.contains(c),
    ensures
        pieces(a, c) == seq![a],
    decreases a.len(),
{
    if a.len() > 0 {
        let head = a.drop_last();
        assert(a[a.len() - 1] != c);
        assert(!head.contains(c)) by {
            if head.contains(c) {
                let k = choose|k: int| 0 <= k < head.len() && head[k] == c;
                assert(a[k] == c);
            }
        }
        lemma_single_piece(head, c);
        assert(head.push(a.last()) =~= a);
        assert(pieces(a, c) =~= seq![a]);
    } else {
        assert(a =~= Seq::<char>::empty());
    }
}

proof fn lemma_pieces_around(a: Seq<char>, b: Seq<char>, c: char)
    ensures
        pieces(a.push(c) + b, c) == pieces(a, c) + pieces(b, c),
    decreases b.len(),
{
    let s = a.push(c) + b;
    if b.len() == 0 {
        assert(s.drop_last() =~= a);
        assert(s.last() == c);
        assert(pieces(s, c) =~= pieces(a, c) + pieces(b, c));
    } else {
        let shorter = b.drop_last();
        lemma_pieces_around(a, shorter, c);
        lemma_pieces_nonempty(shorter, c);
        lemma_pieces_nonempty(a, c);
        assert(s.drop_last() =~= a.push(c) + shorter);
        assert(s.last() == b.last());
        assert(pieces(s, c) =~= pieces(a, c) + pieces(b, c));
    }
}

/// Words are the runs between whitespace: a text without whitespace is its only word, an
/// empty one has none, and the words of two texts around whitespace are the words of both.
pub proof fn law_words_are_runs_between_whitespace(a: Seq<char>, b: Seq<char>, c: char)
    ensures
        a.len() == 0 ==> words(a) == Seq::<Seq<char>>::empty(),
        a.len() > 0 && (forall|i: int| 0 <= i < a.len() ==> !is_white(#[trigger] a[i])) ==> words(a)
            == seq![a],
        is_white(c) ==> words(a.push(c) + b) == words(a) + words(b),
{
    if a.len() > 0 && (forall|i: int| 0 <= i < a.len() ==> !is_white(#[trigger] a[i])) {
        lemma_one_word(a);
        let none = Seq::<char>::empty();
        assert(trim_start(a) =~= a) by {
            assert(!is_white(a[0]));
        }
        assert(words(none) =~= Seq::<Seq<char>>::empty());
        assert(words(a) =~= seq![a]);
    }
    if is_white(c) {
        lemma_words_around(a, b, c);
    }
}

proof fn lemma_one_word(a: Seq<char>)
    requires
        forall|i: int| 0 <= i < a.len() ==> !is_white(#[trigger] a[i]),
    ensures
        leading_word(a) == a,
        after_word(a) == Seq::<char>::empty(),
    decreases a.len(),
{
    if a.len() > 0 {
        let rest = a.drop_first();
        assert forall|i: int| 0 <= i < rest.len() implies !is_white(#[trigger] rest[i]) by {
            assert(rest[i] == a[i + 1]);
        }
        assert(!is_white(a[0]));
        lemma_one_word(rest);
        assert(seq![a[0]] + rest =~= a);
    } else {
        assert(a =~= Seq::<char>::empty());
    }
}

/// Leading words and what follows them do not see past whitespace.
proof fn lemma_word_ends(a: Seq<char>, b: Seq<char>, c: char)
    requires
        is_white(c),
    ensures
        leading_word(a.push(c) + b) == leading_word(a),
        after_word(a.push(c) + b) == after_word(a).push(c) + b,
    decreases a.len(),
{
    let s = a.push(c) + b;
    if a.len() > 0 && !is_white(a[0]) {
        assert(s.drop_first() =~= a.drop_first().push(c) + b);
        lemma_word_ends(a.drop_first(), b, c);
    } else if a.len() == 0 {
        assert(s[0] == c);
    } else {
        assert(s[0] == a[0]);
    }
}

proof fn lemma_words_around(a: Seq<char>, b: Seq<char>, c: char)
    requires
        is_white(c),
    ensures
        words(a.push(c) + b) == words(a) + words(b),
    decreases a.len(),
{
    let s = a.push(c) + b;
    if a.len() == 0 {
        assert(s[0] == c);
        assert(s.drop_first() =~= b);
        assert(trim_start(s) == trim_start(b));
        assert(words(s) == words(b)) by {
            assert(trim_start(s) == trim_start(b));
        }
        assert(words(a) =~= Seq::<Seq<char>>::empty());
        assert(words(a) + words(b) =~= words(b));
    } else if is_white(a[0]) {
        assert(s[0] == a[0]);
        let rest = a.drop_first();
        assert(s.drop_first() =~= rest.push(c) + b);
        lemma_words_around(rest, b, c);
        assert(trim_start(s) == trim_start(rest.push(c) + b));
        assert(trim_start(a) == trim_start(rest));
        assert(words(s) == words(rest.push(c) + b));
        assert(words(a) == words(rest));
    } else {
        assert(s[0] == a[0]);
        lemma_word_ends(a, b, c);
        lemma_after_word_len(a);
        let rest = after_word(a);
        lemma_words_around(rest, b, c);
        assert(words(s) =~= seq![leading_word(a)] + (words(rest) + words(b)));
        assert(words(a) =~= seq![leading_word(a)] + words(rest));
        assert(words(s) =~= words(a) + words(b));
    }
}

/// Digits write a number in base ten: the last one counts once, those before it ten times.
pub proof fn law_digits_write_base_ten(s: Seq<char>, digit: nat)
    requires
        digit < 10,
    ensures
        digits_value(Seq::empty()) == 0,
        digits_value(s.push((48 + digit) as char)) == 10 * digits_value(s) + digit,
{
    assert(s.push((48 + digit) as char).drop_last() =~= s);
}

/// A number is read back from its decimal digits, with or without a plus sign, exactly
/// when it is not too large.
pub proof fn law_number_is_read_back(n: nat, max: nat)
    ensures
        uint(decimal(n), max) == (if n <= max {
            Some(n)
        } else {
            None
        }),
        uint(seq!['+'] + decimal(n), max) == uint(decimal(n), max),
        decimal(n).len() >= 1,
        all_digits(decimal(n)),
        digits_value(decimal(n)) == n,
        n > 0 ==> decimal(n)[0] != '0',
{
    lemma_decimal(n);
    assert(decimal(n)[0] != '+') by {
        assert(is_digit(decimal(n)[0]));
    }
    let signed = seq!['+'] + decimal(n);
    assert(signed.drop_first() =~= decimal(n));
}

proof fn lemma_decimal(n: nat)
    ensures
        decimal(n).len() >= 1,
        all_digits(decimal(n)),
        digits_value(decimal(n)) == n,
        n > 0 ==> decimal(n)[0] != '0',
    decreases n,
{
    if n < 10 {
        let d = decimal(n);
        assert(d.drop_last() =~= Seq::<char>::empty());
        assert(digits_value(Seq::<char>::empty()) == 0);
        assert(d.last() as int == 48 + n);
        assert(digits_value(d) == n);
    } else {
        lemma_decimal(n / 10);
        let d = decimal(n);
        assert(d.drop_last() =~= decimal(n / 10));
        assert(d.last() as int == 48 + n % 10);
        assert(digits_value(d) == digits_value(decimal(n / 10)) * 10 + n % 10);
        assert forall|i: int| 0 <= i < d.len() implies is_digit(#[trigger] d[i]) by {
            if i < d.len() - 1 {
                assert(d[i] == decimal(n / 10)[i]);
            }
        }
    }
}

/// A text is a number exactly when it is digits, at least one, behind an optional plus
/// sign, and not too large.
pub proof fn law_only_digits_are_a_number(s: Seq<char>, body: Seq<char>, max: nat)
    requires
        s == body && (s.len() > 0 ==> s[0] != '+') || s == seq!['+'] + body,
    ensures
        uint(s, max) is Some <==> body.len() > 0 && digits_value(body) <= max && forall|i: int|
            0 <= i < body.len() ==> 48 <= #[trigger] body[i] as int <= 57,
        uint(s, max) matches Some(v) ==> v == digits_value(body) && v <= max,
{
    if s == seq!['+'] + body {
        assert(s.drop_first() =~= body);
    }
    assert(without_plus(s) == body);
    if forall|i: int| 0 <= i < body.len() ==> 48 <= #[trigger] body[i] as int <= 57 {
        assert forall|i: int| 0 <= i < body.len() implies is_digit(#[trigger] body[i]) by {
            assert(48 <= body[i] as int <= 57);
        }
    }
    if all_digits(body) {
        assert forall|i: int| 0 <= i < body.len() implies 48 <= #[trigger] body[i] as int <= 57 by {
            assert(is_digit(body[i]));
        }
    }
}

/// Pieces put together again with their separator.
pub open spec fn rejoined(parts: Seq<Seq<char>>, c: char) -> Seq<char>
    decreases parts.len(),
{
    if parts.len() == 0 {
        Seq::empty()
    } else if parts.len() == 1 {
        parts[0]
    } else {
        rejoined(parts.drop_last(), c).push(c) + parts.last()
    }
}

/// Pieces put together again are the text that was split.
pub proof fn law_pieces_rejoin(s: Seq<char>, c: char)
    ensures
        rejoined(pieces(s, c), c) == s,
    decreases s.len(),
{
    if s.len() == 0 {
        assert(rejoined(pieces(s, c), c) =~= s);
    } else {
        let rest = s.drop_last();
        law_pieces_rejoin(rest, c);
        lemma_pieces_nonempty(rest, c);
        let p = pieces(rest, c);
        let q = pieces(s, c);
        if s.last() == c {
            assert(q.drop_last() =~= p);
            assert(rejoined(q, c) =~= rest.push(c));
            assert(rest.push(c) =~= s);
        } else {
            assert(q.drop_last() =~= p.drop_last());
            assert(q.last() == p.last().push(s.last()));
            assert(rejoined(q, c) =~= rest.push(s.last()));
            assert(rest.push(s.last()) =~= s);
        }
    }
}

/// Digits without a leading zero are the decimal form of their number.
pub proof fn law_plain_digits_are_decimal(s: Seq<char>)
    requires
        s.len() > 0,
        all_digits(s),
        s.len() == 1 || s[0] != '0',
    ensures
        decimal(digits_value(s)) == s,
        s[0] != '0' ==> digits_value(s) > 0,
    decreases s.len(),
{
    let rest = s.drop_last();
    let last = s.last();
    assert(is_digit(s[s.len() - 1]));
    let d = last as int - 48;
    if s.len() == 1 {
        assert(rest =~= Seq::<char>::empty());
        assert(digits_value(rest) == 0);
        assert(digits_value(s) == d);
        assert(decimal(d as nat) =~= s);
    } else {
        assert forall|i: int| 0 <= i < rest.len() implies is_digit(#[trigger] rest[i]) by {
            assert(rest[i] == s[i]);
        }
        assert(rest[0] == s[0]);
        law_plain_digits_are_decimal(rest);
        let v = digits_value(rest);
        assert(digits_value(s) == v * 10 + d);
        assert((v * 10 + d) / 10 == v && (v * 10 + d) % 10 == d);
        assert(decimal(digits_value(s)) =~= s);
    }
}

/// Whitespace is the tab, the line breaks and the spaces of Unicode; a digit is one of
/// the ten ASCII digits.
pub proof fn law_whitespace_and_digits_by_code(c: char)
    ensures
        is_white(c) <==> {
            let n = c as u32;
            ||| n == 9 || n == 10 || n == 11 || n == 12 || n == 13 || n == 32
            ||| n == 133 || n == 160 || n == 5760
            ||| 8192 <= n <= 8202
            ||| n == 8232 || n == 8233 || n == 8239 || n == 8287 || n == 12288
        },
        is_digit(c) <==> 48 <= c as u32 <= 57,
        is_ascii(c) <==> c as u32 <= 127,
{
}

} // verus!
