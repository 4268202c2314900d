//! DNS-SD TXT data in the form that `dns-sd` prints: `key=value` pairs separated by
//! whitespace, with a backslash before every character that is meant literally.

use vstd::prelude::*;
use crate::text;
use crate::text::{chars_of, is_whitespace, split_once, str_eq, string_of};

verus! {

// ── Escapes ─────────────────────────────────────────────────────────────────

/// `s` with each backslash dropped and the character after it kept.
pub open spec fn unescaped(s: Seq<char>) -> Seq<char>
    decreases s.len(),
{
    if s.len() == 0 {
        Seq::empty()
    } else if s[0] == '\\' {
        if s.len() == 1 {
            Seq::empty()
        } else {
            seq![s[1]] + unescaped(s.skip(2))
        }
    } else {
        seq![s[0]] + unescaped(s.drop_first())
    }
}

/// `s` with a backslash before each space and each backslash.
pub open spec fn escaped(s: Seq<char>) -> Seq<char>
    decreases s.len(),
{
    if s.len() == 0 {
        Seq::empty()
    } else if s[0] == '\\' || s[0] == ' ' {
        seq!['\\', s[0]] + escaped(s.drop_first())
    } else {
        seq![s[0]] + escaped(s.drop_first())
    }
}

/// Drop each backslash and keep the character after it.
pub fn unescape_dns_sd(s: &str) -> (r: String)
    ensures
        r@ == unescaped(s@),
{
    let c = chars_of(s);
    let out = unescape_chars(c.as_slice());
    string_of(out.as_slice())
}

/// Drop each backslash and keep the character after it.
pub fn unescape_chars(c: &[char]) -> (out: Vec<char>)
    ensures
        out@ == unescaped(c@),
{
    let mut out: Vec<char> = Vec::new();
    let mut i: usize = 0;
    proof {
        assert(c@.skip(0) =~= c@);
        assert(out@ + unescaped(c@.skip(0)) =~= unescaped(c@));
    }
    while i < c.len()
        invariant
            i <= c.len(),
            out@ + unescaped(c@.skip(i as int)) == unescaped(c@),
        decreases c.len() - i,
    {
        let ghost rest = c@.skip(i as int);
        let ghost before = out@;
        if c[i] == '\\' {
            if i + 1 < c.len() {
                out.push(c[i + 1]);
                proof {
                    assert(rest.skip(2) =~= c@.skip(i as int + 2));
                    assert(before + unescaped(rest) =~= out@ + unescaped(c@.skip(i as int + 2)));
                }
                i += 2;
            } else {
                proof {
                    assert(c@.skip(i as int + 1) =~= Seq::<char>::empty());
                    assert(unescaped(rest) =~= Seq::<char>::empty());
                    assert(before + unescaped(rest) =~= out@ + unescaped(c@.skip(i as int + 1)));
                }
                i += 1;
            }
        } else {
            out.push(c[i]);
            proof {
                assert(rest.drop_first() =~= c@.skip(i as int + 1));
                assert(before + unescaped(rest) =~= out@ + unescaped(c@.skip(i as int + 1)));
            }
            i += 1;
        }
    }
    proof {
        assert(c@.skip(c@.len() as int) =~= Seq::<char>::empty());
        assert(out@ + unescaped(Seq::<char>::empty()) =~= out@);
    }
    out
}

/// Escape spaces and backslashes so that [`parse_txt_blob`] keeps the value whole.
pub fn escape_txt_value(s: &str) -> (r: String)
    ensures
        r@ == escaped(s@),
{
    let c = chars_of(s);
    let out = escape_chars(c.as_slice());
    string_of(out.as_slice())
}

/// Escape spaces and backslashes.
pub fn escape_chars(c: &[char]) -> (out: Vec<char>)
    ensures
        out@ == escaped(c@),
{
    let mut out: Vec<char> = Vec::new();
    let mut i: usize = 0;
    proof {
        assert(c@.skip(0) =~= c@);
        assert(out@ + escaped(c@.skip(0)) =~= escaped(c@));
    }
    while i < c.len()
        invariant
            i <= c.len(),
            out@ + escaped(c@.skip(i as int)) == escaped(c@),
        decreases c.len() - i,
    {
        let ghost rest = c@.skip(i as int);
        let ghost before = out@;
        if c[i] == '\\' || c[i] == ' ' {
            out.push('\\');
        }
        out.push(c[i]);
        proof {
            assert(rest.drop_first() =~= c@.skip(i as int + 1));
            assert(before + escaped(rest) =~= out@ + escaped(c@.skip(i as int + 1)));
        }
        i += 1;
    }
    proof {
        assert(c@.skip(c@.len() as int) =~= Seq::<char>::empty());
        assert(out@ + escaped(Seq::<char>::empty()) =~= out@);
    }
    out
}

/// Unescaping gives back what was escaped.
pub proof fn law_unescape_inverts_escape(s: Seq<char>)
    ensures
        unescaped(escaped(s)) == s,
    decreases s.len(),
{
    if s.len() > 0 {
        let tail = s.drop_first();
        law_unescape_inverts_escape(tail);
        let e = escaped(s);
        if s[0] == '\\' || s[0] == ' ' {
            assert(e[0] == '\\' && e[1] == s[0]);
            assert(e.skip(2) =~= escaped(tail));
        } else {
            assert(e[0] == s[0]);
            assert(e.drop_first() =~= escaped(tail));
        }
        assert(seq![s[0]] + tail =~= s);
    }
}

// ── Parts ───────────────────────────────────────────────────────────────────

/// The parts of `s` between unescaped whitespace, when `cur` has been read of the
/// first one. Backslashes stay in the parts.
pub open spec fn parts_after(s: Seq<char>, cur: Seq<char>) -> Seq<Seq<char>>
    decreases s.len(),
{
    if s.len() == 0 {
        if cur.len() > 0 {
            seq![cur]
        } else {
            Seq::empty()
        }
    } else if s[0] == '\\' {
        if s.len() == 1 {
            seq![cur.push('\\')]
        } else {
            parts_after(s.skip(2), cur.push('\\').push(s[1]))
        }
    } else if text::is_white(s[0]) {
        if cur.len() > 0 {
            seq![cur] + parts_after(s.drop_first(), Seq::empty())
        } else {
            parts_after(s.drop_first(), Seq::empty())
        }
    } else {
        parts_after(s.drop_first(), cur.push(s[0]))
    }
}

/// The parts of `s` between unescaped whitespace.
pub open spec fn txt_parts(s: Seq<char>) -> Seq<Seq<char>> {
    parts_after(s, Seq::empty())
}

/// Split on unescaped whitespace so that `fn=Gym\ speaker` stays one part.
pub fn split_txt_parts(s: &str) -> (out: Vec<String>)
    ensures
        text::views(out@) == txt_parts(s@),
{
    let c = chars_of(s);
    let parts = split_parts(c.as_slice());
    let mut out: Vec<String> = Vec::new();
    let mut i: usize = 0;
    while i < parts.len()
        invariant
            i <= parts.len(),
            out@.len() == i,
            forall|j: int| 0 <= j < i ==> (#[trigger] out@[j])@ == parts@[j]@,
        decreases parts.len() - i,
    {
        out.push(string_of(parts[i].as_slice()));
        i += 1;
    }
    proof {
        assert(text::views(out@) =~= text::char_views(parts@));
    }
    out
}

/// Split on unescaped whitespace.
pub fn split_parts(c: &[char]) -> (out: Vec<Vec<char>>)
    ensures
        text::char_views(out@) == txt_parts(c@),
{
    let mut out: Vec<Vec<char>> = Vec::new();
    let mut cur: Vec<char> = Vec::new();
    let mut i: usize = 0;
    proof {
        assert(c@.skip(0) =~= c@);
        assert(text::char_views(out@) + parts_after(c@, cur@) =~= txt_parts(c@));
    }
    while i < c.len()
        invariant
            i <= c.len(),
            text::char_views(out@) + parts_after(c@.skip(i as int), cur@) == txt_parts(c@),
        decreases c.len() - i,
    {
        let ghost rest = c@.skip(i as int);
        let ghost before = text::char_views(out@);
        let ghost had = cur@;
        if c[i] == '\\' {
            cur.push('\\');
            if i + 1 < c.len() {
                cur.push(c[i + 1]);
                proof {
                    assert(rest.skip(2) =~= c@.skip(i as int + 2));
                }
                i += 2;
            } else {
                proof {
                    assert(c@.skip(i as int + 1) =~= Seq::<char>::empty());
                }
                i += 1;
            }
        } else if is_whitespace(c[i]) {
            proof {
                assert(rest.drop_first() =~= c@.skip(i as int + 1));
            }
            if cur.len() > 0 {
                out.push(cur);
                cur = Vec::new();
                proof {
                    assert(cur@ =~= Seq::<char>::empty());
                    assert(text::char_views(out@) =~= before.push(had));
                    assert(before + (seq![had] + parts_after(rest.drop_first(), Seq::empty()))
                        =~= text::char_views(out@) + parts_after(c@.skip(i as int + 1), cur@));
                }
            } else {
                proof {
                    assert(cur@ =~= Seq::<char>::empty());
                }
            }
            i += 1;
        } else {
            cur.push(c[i]);
            proof {
                assert(rest.drop_first() =~= c@.skip(i as int + 1));
            }
            i += 1;
        }
    }
    proof {
        assert(c@.skip(c@.len() as int) =~= Seq::<char>::empty());
    }
    let ghost before = text::char_views(out@);
    let ghost had = cur@;
    if cur.len() > 0 {
        out.push(cur);
        proof {
            assert(text::char_views(out@) =~= before + seq![had]);
        }
    } else {
        proof {
            assert(text::char_views(out@) =~= before + Seq::<Seq<char>>::empty());
        }
    }
    out
}

// ── Records ─────────────────────────────────────────────────────────────────

/// TXT keys and values. Of several values for one key the last counts.
#[derive(Debug)]
pub struct TxtRecord {
    pairs: Vec<(String, String)>,
}

/// The map that a series of pairs writes.
pub open spec fn pairs_map(pairs: Seq<(Seq<char>, Seq<char>)>) -> Map<Seq<char>, Seq<char>>
    decreases pairs.len(),
{
    if pairs.len() == 0 {
        Map::empty()
    } else {
        pairs_map(pairs.drop_last()).insert(pairs.last().0, pairs.last().1)
    }
}

/// The views of a series of pairs of strings.
pub open spec fn pair_views(pairs: Seq<(String, String)>) -> Seq<(Seq<char>, Seq<char>)> {
    Seq::new(pairs.len(), |i: int| (pairs[i].0@, pairs[i].1@))
}

/// The pairs that a series of parts writes: those that hold a `=`, split at the first
/// one, with the value unescaped.
pub open spec fn part_pairs(parts: Seq<Seq<char>>) -> Seq<(Seq<char>, Seq<char>)>
    decreases parts.len(),
{
    if parts.len() == 0 {
        Seq::empty()
    } else {
        match text::cut(parts.last(), '=') {
            Some((k, v)) => part_pairs(parts.drop_last()).push((k, unescaped(v))),
            None => part_pairs(parts.drop_last()),
        }
    }
}

/// The map that a TXT blob writes.
pub open spec fn blob_map(txt: Seq<char>) -> Map<Seq<char>, Seq<char>> {
    pairs_map(part_pairs(txt_parts(txt)))
}

impl View for TxtRecord {
    type V = Map<Seq<char>, Seq<char>>;

    /// The value of each key.
    closed spec fn view(&self) -> Map<Seq<char>, Seq<char>> {
        pairs_map(pair_views(self.pairs@))
    }
}

/// The last pair with a key is the one that counts.
proof fn lemma_pairs_map(pairs: Seq<(Seq<char>, Seq<char>)>, i: int)
    requires
        0 <= i < pairs.len(),
        forall|j: int| i < j < pairs.len() ==> (#[trigger] pairs[j]).0 != pairs[i].0,
    ensures
        pairs_map(pairs).dom().contains(pairs[i].0),
        pairs_map(pairs)[pairs[i].0] == pairs[i].1,
    decreases pairs.len(),
{
    if i < pairs.len() - 1 {
        let init = pairs.drop_last();
        assert(pairs[pairs.len() - 1].0 != pairs[i].0);
        assert forall|j: int| i < j < init.len() implies (#[trigger] init[j]).0 != init[i].0 by {
            assert(pairs[j].0 != pairs[i].0);
        }
        lemma_pairs_map(init, i);
    }
}

/// A key that no pair has is not in the map.
proof fn lemma_pairs_map_none(pairs: Seq<(Seq<char>, Seq<char>)>, key: Seq<char>)
    requires
        forall|j: int| 0 <= j < pairs.len() ==> (#[trigger] pairs[j]).0 != key,
    ensures
        !pairs_map(pairs).dom().contains(key),
    decreases pairs.len(),
{
    if pairs.len() > 0 {
        let init = pairs.drop_last();
        assert(pairs[pairs.len() - 1].0 != key);
        assert forall|j: int| 0 <= j < init.len() implies (#[trigger] init[j]).0 != key by {
            assert(pairs[j].0 != key);
        }
        lemma_pairs_map_none(init, key);
    }
}

impl TxtRecord {
    /// The value of a key.
    pub fn get(&self, key: &str) -> (r: Option<&String>)
        ensures
            match r {
                Some(v) => self@.dom().contains(key@) && self@[key@] == v@,
                None => !self@.dom().contains(key@),
            },
    {
        let mut i: usize = self.pairs.len();
        let ghost pv = pair_views(self.pairs@);
        while i > 0
            invariant
                i <= self.pairs.len(),
                pv == pair_views(self.pairs@),
                forall|j: int| i <= j < pv.len() ==> (#[trigger] pv[j]).0 != key@,
            decreases i,
        {
            if str_eq(self.pairs[i - 1].0.as_str(), key) {
                proof {
                    assert(pv[i - 1].0 == key@);
                    lemma_pairs_map(pv, i - 1);
                }
                return Some(&self.pairs[i - 1].1);
            }
            proof {
                assert(pv[i - 1].0 != key@);
            }
            i -= 1;
        }
        proof {
            lemma_pairs_map_none(pv, key@);
        }
        None
    }
}

/// Parse a TXT blob (`key=value` separated by whitespace, `\` escapes).
pub fn parse_txt_blob(txt: &str) -> (r: TxtRecord)
    ensures
        r@ == blob_map(txt@),
{
    let c = chars_of(txt);
    let parts = split_parts(c.as_slice());
    let mut pairs: Vec<(String, String)> = Vec::new();
    let mut i: usize = 0;
    let ghost pv = text::char_views(parts@);
    proof {
        assert(pv.take(0) =~= Seq::<Seq<char>>::empty());
        assert(pair_views(pairs@) =~= part_pairs(pv.take(0)));
    }
    while i < parts.len()
        invariant
            i <= parts.len(),
            pv == text::char_views(parts@),
            pair_views(pairs@) == part_pairs(pv.take(i as int)),
        decreases parts.len() - i,
    {
        proof {
            assert(pv.take(i as int + 1).drop_last() =~= pv.take(i as int));
            assert(pv.take(i as int + 1).last() == parts@[i as int]@);
        }
        let ghost before = pair_views(pairs@);
        match split_once(parts[i].as_slice(), '=') {
            Some((k, v)) => {
                let value = unescape_chars(v);
                pairs.push((string_of(k), string_of(value.as_slice())));
                proof {
                    assert(pair_views(pairs@) =~= before.push((k@, unescaped(v@))));
                }
            },
            None => {},
        }
        i += 1;
    }
    proof {
        assert(pv.take(pv.len() as int) =~= pv);
    }
    TxtRecord { pairs }
}

// ── Rendering ───────────────────────────────────────────────────────────────

/// One pair as `dns-sd` prints it.
pub open spec fn rendered_pair(pair: (Seq<char>, Seq<char>)) -> Seq<char> {
    pair.0.push('=') + escaped(pair.1)
}

/// Pairs as `dns-sd` prints them, separated by single spaces.
pub open spec fn rendered(pairs: Seq<(Seq<char>, Seq<char>)>) -> Seq<char>
    decreases pairs.len(),
{
    if pairs.len() == 0 {
        Seq::empty()
    } else if pairs.len() == 1 {
        rendered_pair(pairs.last())
    } else {
        rendered(pairs.drop_last()).push(' ') + rendered_pair(pairs.last())
    }
}

/// A key that stands in a blob unescaped.
pub open spec fn plain_key(k: Seq<char>) -> bool {
    forall|i: int|
        0 <= i < k.len() ==> !text::is_white(#[trigger] k[i]) && k[i] != '\\' && k[i] != '='
}

/// A value whose only whitespace is the space.
pub open spec fn plain_value(v: Seq<char>) -> bool {
    forall|i: int| 0 <= i < v.len() ==> !text::is_white(#[trigger] v[i]) || v[i] == ' '
}

/// Reading a key leaves it in the current part.
proof fn lemma_key_stays(k: Seq<char>, rest: Seq<char>, cur: Seq<char>)
    requires
        plain_key(k),
    ensures
        parts_after(k + rest, cur) == parts_after(rest, cur + k),
    decreases k.len(),
{
    if k.len() == 0 {
        assert(k + rest =~= rest);
        assert(cur + k =~= cur);
    } else {
        let t = k.drop_first();
        assert(plain_key(t)) by {
            assert forall|i: int| 0 <= i < t.len() implies !text::is_white(#[trigger] t[i]) && t[i]
                != '\\' && t[i] != '=' by {
                assert(t[i] == k[i + 1]);
            }
        }
        lemma_key_stays(t, rest, cur.push(k[0]));
        assert((k + rest)[0] == k[0]);
        assert((k + rest).drop_first() =~= t + rest);
        assert(cur.push(k[0]) + t =~= cur + k);
    }
}

/// Reading an escaped value leaves it in the current part.
proof fn lemma_value_stays(v: Seq<char>, rest: Seq<char>, cur: Seq<char>)
    requires
        plain_value(v),
    ensures
        parts_after(escaped(v) + rest, cur) == parts_after(rest, cur + escaped(v)),
    decreases v.len(),
{
    let e = escaped(v);
    if v.len() == 0 {
        assert(e + rest =~= rest);
        assert(cur + e =~= cur);
    } else {
        let t = v.drop_first();
        assert(plain_value(t)) by {
            assert forall|i: int| 0 <= i < t.len() implies !text::is_white(#[trigger] t[i]) || t[i]
                == ' ' by {
                assert(t[i] == v[i + 1]);
            }
        }
        assert(!text::is_white(v[0]) || v[0] == ' ');
        if v[0] == '\\' || v[0] == ' ' {
            lemma_value_stays(t, rest, cur.push('\\').push(v[0]));
            assert((e + rest)[0] == '\\' && (e + rest)[1] == v[0]);
            assert((e + rest).skip(2) =~= escaped(t) + rest);
            assert(cur.push('\\').push(v[0]) + escaped(t) =~= cur + e);
        } else {
            lemma_value_stays(t, rest, cur.push(v[0]));
            assert((e + rest)[0] == v[0]);
            assert((e + rest).drop_first() =~= escaped(t) + rest);
            assert(cur.push(v[0]) + escaped(t) =~= cur + e);
        }
    }
}

/// Reading a rendered pair leaves it in the current part.
proof fn lemma_pair_stays(pair: (Seq<char>, Seq<char>), rest: Seq<char>, cur: Seq<char>)
    requires
        plain_key(pair.0),
        plain_value(pair.1),
    ensures
        parts_after(rendered_pair(pair) + rest, cur) == parts_after(
            rest,
            cur + rendered_pair(pair),
        ),
{
    let (k, v) = pair;
    let r = rendered_pair(pair);
    let after_key = seq!['='] + (escaped(v) + rest);
    assert(r + rest =~= k + after_key);
    lemma_key_stays(k, after_key, cur);
    assert(after_key.drop_first() =~= escaped(v) + rest);
    lemma_value_stays(v, rest, (cur + k).push('='));
    assert((cur + k).push('=') + escaped(v) =~= cur + r);
}

/// A rendered pair is cut at the `=` behind its key.
proof fn lemma_pair_cut(pair: (Seq<char>, Seq<char>))
    requires
        plain_key(pair.0),
    ensures
        text::cut(rendered_pair(pair), '=') == Some((pair.0, escaped(pair.1))),
{
    let r = rendered_pair(pair);
    let n = pair.0.len() as int;
    assert(r[n] == '=');
    assert(r.take(n) =~= pair.0);
    assert(!pair.0.contains('=')) by {
        if pair.0.contains('=') {
            let u = pair.0;
            let k = choose|k: int| 0 <= k < u.len() && u[k] == '=';
            assert(u[k] != '=');
        }
    }
    text::lemma_cut(r, '=', n);
    assert(r.skip(n + 1) =~= escaped(pair.1));
}

/// The parts of a rendered series of pairs, followed by `rest`.
proof fn lemma_rendered_parts(pairs: Seq<(Seq<char>, Seq<char>)>)
    requires
        forall|i: int|
            0 <= i < pairs.len() ==> plain_key((#[trigger] pairs[i]).0) && plain_value(pairs[i].1),
    ensures
        txt_parts(rendered(pairs)) == Seq::new(pairs.len(), |i: int| rendered_pair(pairs[i])),
        forall|rest: Seq<char>|
            pairs.len() > 0 ==> #[trigger] txt_parts(rendered(pairs).push(' ') + rest) == Seq::new(
                pairs.len(),
                |i: int| rendered_pair(pairs[i]),
            ) + txt_parts(rest),
    decreases pairs.len(),
{
    let all = Seq::new(pairs.len(), |i: int| rendered_pair(pairs[i]));
    if pairs.len() == 0 {
        assert(txt_parts(rendered(pairs)) =~= all);
    } else {
        let init = pairs.drop_last();
        let last = pairs.last();
        assert(plain_key(pairs[pairs.len() - 1].0) && plain_value(pairs[pairs.len() - 1].1));
        assert forall|i: int| 0 <= i < init.len() implies plain_key((#[trigger] init[i]).0)
            && plain_value(init[i].1) by {
            assert(init[i] == pairs[i]);
        }
        lemma_rendered_parts(init);
        let heads = Seq::new(init.len(), |i: int| rendered_pair(init[i]));
        let r = rendered_pair(last);
        assert(r.len() > 0);
        assert(all =~= heads.push(r));
        // The last pair on its own.
        lemma_pair_stays(last, Seq::empty(), Seq::empty());
        assert(r + Seq::<char>::empty() =~= r);
        assert(Seq::<char>::empty() + r =~= r);
        assert(txt_parts(r) =~= seq![r]);
        if init.len() == 0 {
            assert(rendered(pairs) == r);
            assert(txt_parts(rendered(pairs)) =~= all);
        } else {
            assert(rendered(pairs) == rendered(init).push(' ') + r);
            assert(txt_parts(rendered(pairs)) =~= all);
        }
        assert forall|rest: Seq<char>| #[trigger]
            txt_parts(rendered(pairs).push(' ') + rest) == all + txt_parts(rest) by {
            let more = seq![' '] + rest;
            lemma_pair_stays(last, more, Seq::empty());
            assert(more.drop_first() =~= rest);
            assert(parts_after(more, r) == seq![r] + txt_parts(rest));
            assert(txt_parts(r + more) == seq![r] + txt_parts(rest));
            if init.len() == 0 {
                assert(rendered(pairs).push(' ') + rest =~= r + more);
                assert(all + txt_parts(rest) =~= seq![r] + txt_parts(rest));
            } else {
                assert(rendered(pairs).push(' ') + rest =~= rendered(init).push(' ') + (r + more));
                assert(txt_parts(rendered(init).push(' ') + (r + more)) == heads + txt_parts(
                    r + more,
                ));
                assert(all + txt_parts(rest) =~= heads + (seq![r] + txt_parts(rest)));
            }
        }
    }
}

/// The pairs of rendered parts are the pairs that were rendered.
proof fn lemma_part_pairs(pairs: Seq<(Seq<char>, Seq<char>)>)
    requires
        forall|i: int| 0 <= i < pairs.len() ==> plain_key((#[trigger] pairs[i]).0),
    ensures
        part_pairs(Seq::new(pairs.len(), |i: int| rendered_pair(pairs[i]))) == pairs,
    decreases pairs.len(),
{
    let parts = Seq::new(pairs.len(), |i: int| rendered_pair(pairs[i]));
    if pairs.len() == 0 {
        assert(part_pairs(parts) =~= pairs);
    } else {
        let init = pairs.drop_last();
        assert(plain_key(pairs[pairs.len() - 1].0));
        assert forall|i: int| 0 <= i < init.len() implies plain_key((#[trigger] init[i]).0) by {
            assert(init[i] == pairs[i]);
        }
        lemma_part_pairs(init);
        assert(parts.drop_last() =~= Seq::new(init.len(), |i: int| rendered_pair(init[i])));
        lemma_pair_cut(pairs.last());
        law_unescape_inverts_escape(pairs.last().1);
        assert(init.push(pairs.last()) =~= pairs);
    }
}

/// A blob gives back the pairs that were rendered into it, multi-word values whole.
pub proof fn law_blob_round_trips(pairs: Seq<(Seq<char>, Seq<char>)>)
    requires
        forall|i: int|
            0 <= i < pairs.len() ==> plain_key((#[trigger] pairs[i]).0) && plain_value(pairs[i].1),
    ensures
        part_pairs(txt_parts(rendered(pairs))) == pairs,
        blob_map(rendered(pairs)) == pairs_map(pairs),
{
    lemma_rendered_parts(pairs);
    lemma_part_pairs(pairs);
}

// ── Reading ─────────────────────────────────────────────────────────────────

/// No character of `s` ends a part or escapes another.
pub open spec fn is_unbroken(s: Seq<char>) -> bool {
    forall|i: int| 0 <= i < s.len() ==> !text::is_white(#[trigger] s[i]) && s[i] != '\\'
}

/// Text without backslashes is read as it is.
proof fn lemma_unescaped_plain(a: Seq<char>, rest: Seq<char>)
    requires
        !a.contains('\\'),
    ensures
        unescaped(a + rest) == a + unescaped(rest),
    decreases a.len(),
{
    if a.len() == 0 {
        assert(a + rest =~= rest);
        assert(a + unescaped(rest) =~= unescaped(rest));
    } else {
        let t = a.drop_first();
        assert(a.contains(a[0]));
        assert(!t.contains('\\')) by {
            if t.contains('\\') {
                let k = choose|k: int| 0 <= k < t.len() && t[k] == '\\';
                assert(a[k + 1] == '\\');
            }
        }
        lemma_unescaped_plain(t, rest);
        assert((a + rest).drop_first() =~= t + rest);
        assert(seq![a[0]] + (t + unescaped(rest)) =~= a + unescaped(rest));
    }
}

/// Text without backslashes is kept; a backslash goes and the character behind it stays,
/// whatever it is; a backslash at the end goes.
pub proof fn law_backslash_goes_and_the_next_character_stays(
    a: Seq<char>,
    c: char,
    rest: Seq<char>,
)
    requires
        !a.contains('\\'),
    ensures
        unescaped(a) == a,
        unescaped(a + seq!['\\', c] + rest) == a.push(c) + unescaped(rest),
        unescaped(a.push('\\')) == a,
{
    lemma_unescaped_plain(a, Seq::empty());
    assert(a + Seq::<char>::empty() =~= a);
    lemma_unescaped_plain(a, seq!['\\', c] + rest);
    assert(a + (seq!['\\', c] + rest) =~= a + seq!['\\', c] + rest);
    assert((seq!['\\', c] + rest).skip(2) =~= rest);
    assert(a + (seq![c] + unescaped(rest)) =~= a.push(c) + unescaped(rest));
    lemma_unescaped_plain(a, seq!['\\']);
    assert(a + seq!['\\'] =~= a.push('\\'));
    assert(a + unescaped(seq!['\\']) =~= a);
}

/// Each character is escaped by itself: a space and a backslash get a backslash before
/// them, the others stay.
pub proof fn law_spaces_and_backslashes_are_escaped(c: char, rest: Seq<char>)
    ensures
        c == ' ' || c == '\\' ==> escaped(seq![c] + rest) == seq!['\\', c] + escaped(rest),
        c != ' ' && c != '\\' ==> escaped(seq![c] + rest) == seq![c] + escaped(rest),
        escaped(Seq::<char>::empty()) == Seq::<char>::empty(),
{
    assert((seq![c] + rest).drop_first() =~= rest);
}

/// Reading an unbroken text leaves it in the current part.
proof fn lemma_unbroken_stays(k: Seq<char>, rest: Seq<char>, cur: Seq<char>)
    requires
        is_unbroken(k),
    ensures
        parts_after(k + rest, cur) == parts_after(rest, cur + k),
    decreases k.len(),
{
    if k.len() == 0 {
        assert(k + rest =~= rest);
        assert(cur + k =~= cur);
    } else {
        let t = k.drop_first();
        assert forall|i: int| 0 <= i < t.len() implies !text::is_white(#[trigger] t[i]) && t[i]
            != '\\' by {
            assert(t[i] == k[i + 1]);
        }
        lemma_unbroken_stays(t, rest, cur.push(k[0]));
        assert((k + rest)[0] == k[0]);
        assert((k + rest).drop_first() =~= t + rest);
        assert(cur.push(k[0]) + t =~= cur + k);
    }
}

/// A part reaches to the next whitespace of any kind, and whitespace before a part is
/// passed over.
pub proof fn law_parts_stand_between_whitespace(part: Seq<char>, w: char, rest: Seq<char>)
    requires
        is_unbroken(part),
        part.len() > 0,
        text::is_white(w),
    ensures
        txt_parts(part.push(w) + rest) == seq![part] + txt_parts(rest),
        txt_parts(seq![w] + rest) == txt_parts(rest),
        txt_parts(part) == seq![part],
        txt_parts(Seq::<char>::empty()) == Seq::<Seq<char>>::empty(),
{
    let more = seq![w] + rest;
    assert(w != '\\');
    assert(more[0] == w);
    assert(more.drop_first() =~= rest);
    lemma_unbroken_stays(part, more, Seq::empty());
    assert(part + more =~= part.push(w) + rest);
    assert(Seq::<char>::empty() + part =~= part);
    lemma_unbroken_stays(part, Seq::empty(), Seq::empty());
    assert(part + Seq::<char>::empty() =~= part);
}

/// A character behind a backslash never ends a part, be it whitespace or another
/// backslash; the backslash stays in the part.
pub proof fn law_escaped_character_stays_in_its_part(
    head: Seq<char>,
    c: char,
    tail: Seq<char>,
    w: char,
    rest: Seq<char>,
)
    requires
        is_unbroken(head),
        is_unbroken(tail),
        text::is_white(w),
    ensures
        txt_parts((head + seq!['\\', c] + tail).push(w) + rest) == seq![
            head + seq!['\\', c] + tail,
        ] + txt_parts(rest),
{
    let part = head + seq!['\\', c] + tail;
    let more = seq![w] + rest;
    let after = tail + more;
    let from = seq!['\\', c] + after;
    assert(part.push(w) + rest =~= head + from);
    lemma_unbroken_stays(head, from, Seq::empty());
    assert(Seq::<char>::empty() + head =~= head);
    assert(from[0] == '\\' && from[1] == c);
    assert(from.skip(2) =~= after);
    let cur = head.push('\\').push(c);
    lemma_unbroken_stays(tail, more, cur);
    assert(cur + tail =~= part);
    assert(w != '\\');
    assert(more[0] == w);
    assert(more.drop_first() =~= rest);
}

/// A part with a `=` gives a pair: what stands before the first one, and what stands
/// behind it, unescaped. A part without one gives none, and parts are read in order.
pub proof fn law_parts_give_pairs(
    key: Seq<char>,
    value: Seq<char>,
    other: Seq<char>,
    parts: Seq<Seq<char>>,
)
    requires
        !key.contains('='),
        !other.contains('='),
    ensures
        part_pairs(parts.push(key.push('=') + value)) == part_pairs(parts).push(
            (key, unescaped(value)),
        ),
        part_pairs(parts.push(other)) == part_pairs(parts),
        part_pairs(Seq::<Seq<char>>::empty()) == Seq::<(Seq<char>, Seq<char>)>::empty(),
{
    let part = key.push('=') + value;
    let n = key.len() as int;
    assert(part[n] == '=');
    assert(part.take(n) =~= key);
    assert(part.skip(n + 1) =~= value);
    text::lemma_cut(part, '=', n);
    text::lemma_cut_none(other, '=');
    assert(parts.push(part).drop_last() =~= parts);
    assert(parts.push(other).drop_last() =~= parts);
}

/// Of several values for one key the last counts, a key without value has none, and the
/// values of the other keys stay.
pub proof fn law_last_value_counts(
    pairs: Seq<(Seq<char>, Seq<char>)>,
    key: Seq<char>,
    value: Seq<char>,
    other: Seq<char>,
)
    requires
        other != key,
    ensures
        pairs_map(pairs.push((key, value))).dom().contains(key),
        pairs_map(pairs.push((key, value)))[key] == value,
        pairs_map(pairs.push((key, value))).dom().contains(other) == pairs_map(
            pairs,
        ).dom().contains(other),
        pairs_map(pairs).dom().contains(other) ==> pairs_map(pairs.push((key, value)))[other]
            == pairs_map(pairs)[other],
        !pairs_map(Seq::empty()).dom().contains(key),
{
    assert(pairs.push((key, value)).drop_last() =~= pairs);
}

/// Pairs are written in order, with a space between two and a `=` in each; values are
/// escaped.
pub proof fn law_pairs_are_written_in_order(
    pairs: Seq<(Seq<char>, Seq<char>)>,
    key: Seq<char>,
    value: Seq<char>,
)
    ensures
        rendered(Seq::empty()) == Seq::<char>::empty(),
        rendered(seq![(key, value)]) == key + seq!['='] + escaped(value),
        pairs.len() > 0 ==> rendered(pairs.push((key, value))) == rendered(pairs) + seq![' '] + key
            + seq!['='] + escaped(value),
{
    assert(key + seq!['='] + escaped(value) =~= key.push('=') + escaped(value));
    assert(pairs.push((key, value)).drop_last() =~= pairs);
    if pairs.len() > 0 {
        assert(rendered(pairs.push((key, value))) =~= rendered(pairs) + seq![' '] + key + seq!['=']
            + escaped(value));
    }
}

} // verus!
