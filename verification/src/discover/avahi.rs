//! Output of `avahi-browse` in its parsable mode.

use vstd::prelude::*;
use crate::discover::dns_sd::{ResolveInfo, DEFAULT_CAST_PORT};
use crate::discover::txt;
use crate::discover::txt::escape_chars;
use crate::text;
use crate::text::{
    chars_of, contains, is_whitespace, parse_uint, push_all, same, split_once, string_of, trim,
    trim_dots,
};

verus! {

/// Parsed browse event.
#[derive(Debug)]
pub enum AvahiEvent {
    /// Fully resolved service (`=` line).
    Resolved {
        /// Service instance name.
        instance: String,
        /// Resolve info (hostname, port, TXT, address).
        info: ResolveInfo,
    },
    /// Service removed (`-` line).
    Removed {
        /// Service instance name.
        instance: String,
    },
}

// ── Fields ──────────────────────────────────────────────────────────────────

/// The fields of `s` between unescaped semicolons, when `cur` has been read of the
/// first one. Backslashes are dropped and the characters after them kept.
pub open spec fn fields_after(s: Seq<char>, cur: Seq<char>) -> Seq<Seq<char>>
    decreases s.len(),
{
    if s.len() == 0 {
        seq![cur]
    } else if s[0] == '\\' {
        if s.len() == 1 {
            seq![cur]
        } else {
            fields_after(s.skip(2), cur.push(s[1]))
        }
    } else if s[0] == ';' {
        seq![cur] + fields_after(s.drop_first(), Seq::empty())
    } else {
        fields_after(s.drop_first(), cur.push(s[0]))
    }
}

/// The fields of a line.
pub open spec fn fields(line: Seq<char>) -> Seq<Seq<char>> {
    fields_after(line, Seq::empty())
}

/// There is always at least one field.
proof fn lemma_fields_nonempty(s: Seq<char>, cur: Seq<char>)
    ensures
        fields_after(s, cur).len() >= 1,
    decreases s.len(),
{
    if s.len() > 0 {
        if s[0] == '\\' {
            if s.len() > 1 {
                lemma_fields_nonempty(s.skip(2), cur.push(s[1]));
            }
        } else if s[0] == ';' {
            lemma_fields_nonempty(s.drop_first(), Seq::empty());
        } else {
            lemma_fields_nonempty(s.drop_first(), cur.push(s[0]));
        }
    }
}

/// Split a line on unescaped `;`.
fn split_fields(c: &[char]) -> (out: Vec<Vec<char>>)
    ensures
        text::char_views(out@) == fields(c@),
{
    let mut out: Vec<Vec<char>> = Vec::new();
    let mut cur: Vec<char> = Vec::new();
    let mut i: usize = 0;
    proof {
        assert(c@.skip(0) =~= c@);
        assert(cur@ =~= Seq::<char>::empty());
        assert(text::char_views(out@) + fields_after(c@, cur@) =~= fields(c@));
    }
    while i < c.len()
        invariant
            i <= c.len(),
            text::char_views(out@) + fields_after(c@.skip(i as int), cur@) == fields(c@),
        decreases c.len() - i,
    {
        let ghost rest = c@.skip(i as int);
        let ghost before = text::char_views(out@);
        let ghost had = cur@;
        if c[i] == '\\' {
            if i + 1 < c.len() {
                cur.push(c[i + 1]);
                proof {
                    assert(rest.skip(2) =~= c@.skip(i as int + 2));
                }
                i += 2;
            } else {
                proof {
                    assert(c@.skip(i as int + 1) =~= Seq::<char>::empty());
                }
                i += 1;
            }
        } else if c[i] == ';' {
            out.push(cur);
            cur = Vec::new();
            proof {
                assert(rest.drop_first() =~= c@.skip(i as int + 1));
                assert(cur@ =~= Seq::<char>::empty());
                assert(text::char_views(out@) =~= before.push(had));
                assert(before + (seq![had] + fields_after(rest.drop_first(), Seq::empty()))
                    =~= text::char_views(out@) + fields_after(c@.skip(i as int + 1), cur@));
            }
            i += 1;
        } else {
            cur.push(c[i]);
            proof {
                assert(rest.drop_first() =~= c@.skip(i as int + 1));
            }
            i += 1;
        }
    }
    let ghost before = text::char_views(out@);
    let ghost had = cur@;
    out.push(cur);
    proof {
        assert(c@.skip(c@.len() as int) =~= Seq::<char>::empty());
        assert(text::char_views(out@) =~= before + seq![had]);
    }
    out
}

/// Split a line on unescaped `;`.
pub fn split_avahi_fields(line: &str) -> (out: Vec<String>)
    ensures
        text::views(out@) == fields(line@),
{
    let c = chars_of(line);
    let parts = split_fields(c.as_slice());
    let mut out: Vec<String> = Vec::new();
    let mut i: usize = 0;
    while i < parts.len()
        invariant
            i <= parts.len(),
            out@.len() == i,
            forall|j: int| 0 <= j < i ==> (#[trigger] out@[j])@ == parts@[j]@,
        decreases parts.len() - i,
    {
        out.push(string_of(parts[i].as_slice()));
        i += 1;
    }
    proof {
        assert(text::views(out@) =~= text::char_views(parts@));
    }
    out
}

// ── TXT ─────────────────────────────────────────────────────────────────────

/// The quoted texts of `s`, when `cur` has been read of the first one and `quoted`
/// says whether a quote is open. Within quotes a backslash is dropped and the
/// character after it kept; outside them whitespace is dropped and other characters
/// are collected.
pub open spec fn quoted_after(s: Seq<char>, cur: Seq<char>, quoted: bool) -> Seq<Seq<char>>
    decreases s.len(),
{
    if s.len() == 0 {
        if cur.len() > 0 {
            seq![cur]
        } else {
            Seq::empty()
        }
    } else if s[0] == '"' {
        if quoted {
            if cur.len() > 0 {
                seq![cur] + quoted_after(s.drop_first(), Seq::empty(), false)
            } else {
                quoted_after(s.drop_first(), Seq::empty(), false)
            }
        } else {
            quoted_after(s.drop_first(), cur, true)
        }
    } else if quoted && s[0] == '\\' {
        if s.len() == 1 {
            quoted_after(Seq::empty(), cur, true)
        } else {
            quoted_after(s.skip(2), cur.push(s[1]), true)
        }
    } else if !quoted && text::is_white(s[0]) {
        quoted_after(s.drop_first(), cur, quoted)
    } else {
        quoted_after(s.drop_first(), cur.push(s[0]), quoted)
    }
}

/// The quoted texts of a TXT field.
pub open spec fn quoted_texts(s: Seq<char>) -> Seq<Seq<char>> {
    quoted_after(s, Seq::empty(), false)
}

/// The `key=value` pairs among texts.
pub open spec fn pairs_of(texts: Seq<Seq<char>>) -> Seq<(Seq<char>, Seq<char>)>
    decreases texts.len(),
{
    if texts.len() == 0 {
        Seq::empty()
    } else {
        match text::cut(texts.last(), '=') {
            Some(pair) => pairs_of(texts.drop_last()).push(pair),
            None => pairs_of(texts.drop_last()),
        }
    }
}

/// A TXT field in the form that `dns-sd` prints.
pub open spec fn normalized(s: Seq<char>) -> Seq<char> {
    txt::rendered(pairs_of(quoted_texts(text::trimmed(s))))
}

/// The quoted texts of a TXT field.
fn split_quoted(c: &[char]) -> (out: Vec<Vec<char>>)
    ensures
        text::char_views(out@) == quoted_texts(c@),
{
    let mut out: Vec<Vec<char>> = Vec::new();
    let mut cur: Vec<char> = Vec::new();
    let mut quoted: bool = false;
    let mut i: usize = 0;
    proof {
        assert(c@.skip(0) =~= c@);
        assert(cur@ =~= Seq::<char>::empty());
        assert(text::char_views(out@) + quoted_after(c@, cur@, false) =~= quoted_texts(c@));
    }
    while i < c.len()
        invariant
            i <= c.len(),
            text::char_views(out@) + quoted_after(c@.skip(i as int), cur@, quoted) == quoted_texts(
                c@,
            ),
        decreases c.len() - i,
    {
        let ghost rest = c@.skip(i as int);
        let ghost before = text::char_views(out@);
        let ghost had = cur@;
        proof {
            assert(rest.drop_first() =~= c@.skip(i as int + 1));
        }
        if c[i] == '"' {
            if quoted {
                quoted = false;
                if cur.len() > 0 {
                    out.push(cur);
                    cur = Vec::new();
                    proof {
                        assert(cur@ =~= Seq::<char>::empty());
                        assert(text::char_views(out@) =~= before.push(had));
                        assert(before + (seq![had] + quoted_after(
                            rest.drop_first(),
                            Seq::empty(),
                            false,
                        )) =~= text::char_views(out@) + quoted_after(
                            c@.skip(i as int + 1),
                            cur@,
                            false,
                        ));
                    }
                } else {
                    proof {
                        assert(cur@ =~= Seq::<char>::empty());
                    }
                }
            } else {
                quoted = true;
            }
            i += 1;
        } else if quoted && c[i] == '\\' {
            if i + 1 < c.len() {
                cur.push(c[i + 1]);
                proof {
                    assert(rest.skip(2) =~= c@.skip(i as int + 2));
                }
                i += 2;
            } else {
                proof {
                    assert(c@.skip(i as int + 1) =~= Seq::<char>::empty());
                }
                i += 1;
            }
        } else if !quoted && is_whitespace(c[i]) {
            i += 1;
        } else {
            cur.push(c[i]);
            i += 1;
        }
    }
    proof {
        assert(c@.skip(c@.len() as int) =~= Seq::<char>::empty());
    }
    let ghost before = text::char_views(out@);
    let ghost had = cur@;
    if cur.len() > 0 {
        out.push(cur);
        proof {
            assert(text::char_views(out@) =~= before + seq![had]);
        }
    } else {
        proof {
            assert(text::char_views(out@) =~= before + Seq::<Seq<char>>::empty());
        }
    }
    out
}

/// Rendering one more pair appends it.
proof fn lemma_rendered_push(
    pairs: Seq<(Seq<char>, Seq<char>)>,
    pair: (Seq<char>, Seq<char>),
)
    ensures
        txt::rendered(pairs.push(pair)) == (if pairs.len() == 0 {
            txt::rendered_pair(pair)
        } else {
            txt::rendered(pairs).push(' ') + txt::rendered_pair(pair)
        }),
        txt::rendered(pairs).len() == 0 <==> pairs.len() == 0,
{
    assert(pairs.push(pair).drop_last() =~= pairs);
    if pairs.len() > 0 {
        let r = txt::rendered_pair(pairs.last());
        assert(r.len() > 0);
    }
}

/// Render the pairs of a TXT field.
fn normalize_chars(s: &[char]) -> (out: Vec<char>)
    ensures
        out@ == normalized(s@),
{
    let texts = split_quoted(trim(s));
    let ghost tv = text::char_views(texts@);
    let mut out: Vec<char> = Vec::new();
    let mut i: usize = 0;
    proof {
        assert(tv.take(0) =~= Seq::<Seq<char>>::empty());
        assert(out@ =~= txt::rendered(pairs_of(tv.take(0))));
    }
    while i < texts.len()
        invariant
            i <= texts.len(),
            tv == text::char_views(texts@),
            out@ == txt::rendered(pairs_of(tv.take(i as int))),
        decreases texts.len() - i,
    {
        proof {
            assert(tv.take(i as int + 1).drop_last() =~= tv.take(i as int));
            assert(tv.take(i as int + 1).last() == texts@[i as int]@);
        }
        match split_once(texts[i].as_slice(), '=') {
            Some((k, v)) => {
                proof {
                    lemma_rendered_push(pairs_of(tv.take(i as int)), (k@, v@));
                }
                let ghost before = out@;
                if out.len() > 0 {
                    out.push(' ');
                }
                let ghost head = out@;
                push_all(&mut out, k);
                out.push('=');
                let value = escape_chars(v);
                push_all(&mut out, value.as_slice());
                proof {
                    assert(out@ =~= head + txt::rendered_pair((k@, v@)));
                    if before.len() == 0 {
                        assert(out@ =~= txt::rendered_pair((k@, v@)));
                    }
                }
            },
            None => {},
        }
        i += 1;
    }
    proof {
        assert(tv.take(tv.len() as int) =~= tv);
    }
    out
}

/// Convert a TXT field (`"k=v" "k2=v2"`) into `dns-sd` style pairs.
///
/// Values with spaces are escaped for [`crate::discover::txt::parse_txt_blob`].
pub fn normalize_avahi_txt(s: &str) -> (r: String)
    ensures
        r@ == normalized(s@),
{
    let c = chars_of(s);
    let out = normalize_chars(c.as_slice());
    string_of(out.as_slice())
}

/// Reading back a normalized TXT field gives the pairs that were quoted in it.
pub proof fn law_normalized_txt_keeps_the_pairs(s: Seq<char>)
    requires
        forall|i: int|
            #![trigger pairs_of(quoted_texts(text::trimmed(s)))[i]]
            0 <= i < pairs_of(quoted_texts(text::trimmed(s))).len() ==> txt::plain_key(
                pairs_of(quoted_texts(text::trimmed(s)))[i].0,
            ) && txt::plain_value(pairs_of(quoted_texts(text::trimmed(s)))[i].1),
    ensures
        txt::blob_map(normalized(s)) == txt::pairs_map(
            pairs_of(quoted_texts(text::trimmed(s))),
        ),
{
    let pairs = pairs_of(quoted_texts(text::trimmed(s)));
    assert forall|i: int| 0 <= i < pairs.len() implies txt::plain_key((#[trigger] pairs[i]).0)
        && txt::plain_value(pairs[i].1) by {}
    txt::law_blob_round_trips(pairs);
}

// ── Lines ───────────────────────────────────────────────────────────────────

/// What a resolved line reports, by its fields: IPv4 only, with a name, of the Cast
/// service type or none; a missing, unreadable or zero port counts as the default.
pub open spec fn resolved_line(f: Seq<Seq<char>>, r: Option<AvahiEvent>) -> bool {
    if f.len() < 9 || f[2] != "IPv4"@ || f[3].len() == 0 || (f[4].len() > 0 && !text::has_sub(
        f[4],
        "googlecast"@,
    )) {
        r is None
    } else {
        r matches Some(AvahiEvent::Resolved { instance, info }) && {
            &&& instance@ == f[3]
            &&& info.hostname@ == text::without_dots(f[6])
            &&& text::opt_view(info.address) == (if f[7].len() == 0 {
                None
            } else {
                Some(f[7])
            })
            &&& info.port == match text::uint(f[8], u16::MAX as nat) {
                Some(p) => if p == 0 {
                    DEFAULT_CAST_PORT as nat
                } else {
                    p
                },
                None => DEFAULT_CAST_PORT as nat,
            }
            &&& info.txt@ == (if f.len() > 9 {
                normalized(f[9])
            } else {
                normalized(Seq::empty())
            })
        }
    }
}

/// What a line reports. Empty lines, comments, `+` lines and unknown kinds report
/// nothing.
pub open spec fn avahi_result(line: Seq<char>, r: Option<AvahiEvent>) -> bool {
    let t = text::trimmed(line);
    let f = fields(t);
    if t.len() == 0 || t[0] == '#' {
        r is None
    } else if f[0] == "-"@ {
        if f.len() <= 3 || f[3].len() == 0 {
            r is None
        } else {
            r matches Some(AvahiEvent::Removed { instance }) && instance@ == f[3]
        }
    } else if f[0] == "="@ {
        resolved_line(f, r)
    } else {
        r is None
    }
}

/// Whether `s` holds exactly the characters of `lit`.
fn is_text(s: &Vec<char>, lit: &str) -> (r: bool)
    ensures
        r == (s@ == lit@),
{
    let l = chars_of(lit);
    same(s.as_slice(), l.as_slice())
}

fn resolved_event(f: &Vec<Vec<char>>) -> (r: Option<AvahiEvent>)
    ensures
        resolved_line(text::char_views(f@), r),
{
    let ghost fv = text::char_views(f@);
    if f.len() < 9 {
        return None;
    }
    proof {
        assert forall|i: int| 0 <= i < f@.len() implies fv[i] == (#[trigger] f@[i])@ by {}
    }
    if !is_text(&f[2], "IPv4") {
        return None;
    }
    if f[3].len() == 0 {
        return None;
    }
    let wanted = chars_of("googlecast");
    if f[4].len() > 0 && !contains(f[4].as_slice(), wanted.as_slice()) {
        return None;
    }
    let hostname = string_of(trim_dots(f[6].as_slice()));
    let address = if f[7].len() == 0 {
        None
    } else {
        Some(string_of(f[7].as_slice()))
    };
    let port: u16 = match parse_uint(f[8].as_slice(), u16::MAX as u32) {
        Some(p) => if p == 0 {
            DEFAULT_CAST_PORT
        } else {
            p as u16
        },
        None => DEFAULT_CAST_PORT,
    };
    let txt = if f.len() > 9 {
        normalize_chars(f[9].as_slice())
    } else {
        let nothing: Vec<char> = Vec::new();
        let n = normalize_chars(nothing.as_slice());
        proof {
            assert(nothing@ =~= Seq::<char>::empty());
        }
        n
    };
    Some(
        AvahiEvent::Resolved {
            instance: string_of(f[3].as_slice()),
            info: ResolveInfo { hostname, port, txt: string_of(txt.as_slice()), address },
        },
    )
}

/// Parse one line into a resolved or removed event.
///
/// Examples:
/// ```text
/// =;eth0;IPv4;Living Room;_googlecast._tcp;local;Chromecast-xxx.local;192.168.1.50;8009;"id=abc" "fn=Living Room" "md=Chromecast"
/// -;eth0;IPv4;Living Room;_googlecast._tcp;local
/// ```
///
/// Resolves over other protocols than IPv4 are skipped, so that IPv6 does not
/// overwrite a good IPv4 host.
pub fn parse_avahi_line(line: &str) -> (r: Option<AvahiEvent>)
    ensures
        avahi_result(line@, r),
{
    let c = chars_of(line);
    let t = trim(c.as_slice());
    if t.len() == 0 || t[0] == '#' {
        return None;
    }
    let f = split_fields(t);
    proof {
        lemma_fields_nonempty(t@, Seq::empty());
        assert(text::char_views(f@).len() == f@.len());
        assert forall|i: int| 0 <= i < f@.len() implies fields(t@)[i] == (#[trigger] f@[i])@ by {
            assert(text::char_views(f@)[i] == f@[i]@);
        }
    }
    if is_text(&f[0], "-") {
        if f.len() <= 3 || f[3].len() == 0 {
            return None;
        }
        return Some(AvahiEvent::Removed { instance: string_of(f[3].as_slice()) });
    }
    if is_text(&f[0], "=") {
        return resolved_event(&f);
    }
    None
}

// ── Laws ────────────────────────────────────────────────────────────────────

/// No character of `s` ends a field or escapes another.
pub open spec fn is_one_field(s: Seq<char>) -> bool {
    forall|i: int| 0 <= i < s.len() ==> #[trigger] s[i] != ';' && s[i] != '\\'
}

/// Reading a text that is one field leaves it in the current field.
proof fn lemma_field_stays(k: Seq<char>, rest: Seq<char>, cur: Seq<char>)
    requires
        is_one_field(k),
    ensures
        fields_after(k + rest, cur) == fields_after(rest, cur + k),
    decreases k.len(),
{
    if k.len() == 0 {
        assert(k + rest =~= rest);
        assert(cur + k =~= cur);
    } else {
        let t = k.drop_first();
        assert forall|i: int| 0 <= i < t.len() implies #[trigger] t[i] != ';' && t[i] != '\\' by {
            assert(t[i] == k[i + 1]);
        }
        lemma_field_stays(t, rest, cur.push(k[0]));
        assert((k + rest)[0] == k[0]);
        assert((k + rest).drop_first() =~= t + rest);
        assert(cur.push(k[0]) + t =~= cur + k);
    }
}

/// A field reaches to the next semicolon, and may be empty; a character behind a
/// backslash stands in its field without it, be it a semicolon or another backslash.
pub proof fn law_fields_stand_between_semicolons(
    head: Seq<char>,
    c: char,
    tail: Seq<char>,
    rest: Seq<char>,
)
    requires
        is_one_field(head),
        is_one_field(tail),
    ensures
        fields(head) == seq![head],
        fields(head.push(';') + rest) == seq![head] + fields(rest),
        fields((head + seq!['\\', c] + tail).push(';') + rest) == seq![head.push(c) + tail]
            + fields(rest),
{
    assert(Seq::<char>::empty() + head =~= head);
    lemma_field_stays(head, Seq::empty(), Seq::empty());
    assert(head + Seq::<char>::empty() =~= head);
    let more = seq![';'] + rest;
    assert(more.drop_first() =~= rest);
    lemma_field_stays(head, more, Seq::empty());
    assert(head + more =~= head.push(';') + rest);
    let from = seq!['\\', c] + (tail + more);
    assert((head + seq!['\\', c] + tail).push(';') + rest =~= head + from);
    lemma_field_stays(head, from, Seq::empty());
    assert(from[0] == '\\' && from[1] == c);
    assert(from.skip(2) =~= tail + more);
    lemma_field_stays(tail, more, head.push(c));
}

/// No character of `s` ends a quoted text or escapes another.
pub open spec fn is_one_text(s: Seq<char>) -> bool {
    forall|i: int| 0 <= i < s.len() ==> #[trigger] s[i] != '"' && s[i] != '\\'
}

/// Reading a text within quotes leaves it in the current text.
proof fn lemma_text_stays(k: Seq<char>, rest: Seq<char>, cur: Seq<char>)
    requires
        is_one_text(k),
    ensures
        quoted_after(k + rest, cur, true) == quoted_after(rest, cur + k, true),
    decreases k.len(),
{
    if k.len() == 0 {
        assert(k + rest =~= rest);
        assert(cur + k =~= cur);
    } else {
        let t = k.drop_first();
        assert forall|i: int| 0 <= i < t.len() implies #[trigger] t[i] != '"' && t[i] != '\\' by {
            assert(t[i] == k[i + 1]);
        }
        lemma_text_stays(t, rest, cur.push(k[0]));
        assert((k + rest)[0] == k[0]);
        assert((k + rest).drop_first() =~= t + rest);
        assert(cur.push(k[0]) + t =~= cur + k);
    }
}

/// What stands between two quotes is one text, spaces and all; whitespace outside them
/// is passed over, and empty quotes give nothing. A character behind a backslash stands
/// in the text without it, be it a quote.
pub proof fn law_texts_stand_between_quotes(
    head: Seq<char>,
    c: char,
    tail: Seq<char>,
    w: char,
    rest: Seq<char>,
)
    requires
        is_one_text(head),
        is_one_text(tail),
        text::is_white(w),
    ensures
        head.len() > 0 ==> quoted_texts(seq!['"'] + head.push('"') + rest) == seq![head]
            + quoted_texts(rest),
        quoted_texts(seq!['"', '"'] + rest) == quoted_texts(rest),
        quoted_texts(seq![w] + rest) == quoted_texts(rest),
        quoted_texts(seq!['"'] + (head + seq!['\\', c] + tail).push('"') + rest) == seq![
            head.push(c) + tail,
        ] + quoted_texts(rest),
        quoted_texts(Seq::empty()) == Seq::<Seq<char>>::empty(),
{
    let none = Seq::<char>::empty();
    let more = seq!['"'] + rest;
    assert(more.drop_first() =~= rest);
    let first = seq!['"'] + head.push('"') + rest;
    assert(first.drop_first() =~= head + more);
    lemma_text_stays(head, more, none);
    assert(none + head =~= head);
    let empty = seq!['"', '"'] + rest;
    assert(empty.drop_first() =~= more);
    assert(empty[0] == '"');
    assert(quoted_after(empty, none, false) == quoted_after(more, none, true));
    assert(more[0] == '"');
    assert(quoted_after(more, none, true) == quoted_after(rest, none, false));
    let blank = seq![w] + rest;
    assert(blank[0] == w && w != '"');
    assert(blank.drop_first() =~= rest);
    let second = seq!['"'] + (head + seq!['\\', c] + tail).push('"') + rest;
    let from = seq!['\\', c] + (tail + more);
    assert(second.drop_first() =~= head + from);
    lemma_text_stays(head, from, none);
    assert(from[0] == '\\' && from[1] == c);
    assert(from.skip(2) =~= tail + more);
    lemma_text_stays(tail, more, head.push(c));
}

/// A text with a `=` gives a pair, cut at the first one; a text without one gives none,
/// and texts are read in order.
pub proof fn law_texts_give_pairs(
    key: Seq<char>,
    value: Seq<char>,
    other: Seq<char>,
    texts: Seq<Seq<char>>,
)
    requires
        !key.contains('='),
        !other.contains('='),
    ensures
        pairs_of(texts.push(key.push('=') + value)) == pairs_of(texts).push((key, value)),
        pairs_of(texts.push(other)) == pairs_of(texts),
        pairs_of(Seq::empty()) == Seq::<(Seq<char>, Seq<char>)>::empty(),
{
    let t = key.push('=') + value;
    let n = key.len() as int;
    assert(t[n] == '=');
    assert(t.take(n) =~= key);
    assert(t.skip(n + 1) =~= value);
    text::lemma_cut(t, '=', n);
    text::lemma_cut_none(other, '=');
    assert(texts.push(t).drop_last() =~= texts);
    assert(texts.push(other).drop_last() =~= texts);
}

/// A resolved line reports exactly when it is of IPv4, has a name, and is of the Cast
/// type or of none. It reports its name, its hostname without trailing dots, its
/// address unless that is empty, and its TXT data.
pub proof fn law_resolved_line_reports_its_fields(f: Seq<Seq<char>>, r: Option<AvahiEvent>)
    requires
        resolved_line(f, r),
    ensures
        r is Some <==> f.len() >= 9 && f[2] == "IPv4"@ && f[3].len() > 0 && (f[4].len() == 0
            || text::has_sub(f[4], "googlecast"@)),
        r matches Some(e) ==> e is Resolved,
        r matches Some(AvahiEvent::Resolved { instance, info }) ==> {
            &&& instance@ == f[3]
            &&& info.hostname@ == text::without_dots(f[6])
            &&& info.address is None <==> f[7].len() == 0
            &&& info.address is Some ==> info.address->0@ == f[7]
            &&& f.len() > 9 ==> info.txt@ == normalized(f[9])
            &&& f.len() == 9 ==> info.txt@ == normalized(Seq::empty())
        },
{
}

/// A resolved line keeps every port that it states; one that states none, or what is no
/// port, is given the usual Cast port, 8009.
pub proof fn law_resolved_line_keeps_its_port(f: Seq<Seq<char>>, r: Option<AvahiEvent>, port: nat)
    requires
        resolved_line(f, r),
        r is Some,
    ensures
        r matches Some(AvahiEvent::Resolved { instance, info }) ==> {
            &&& f[8] == text::decimal(port) && 1 <= port <= 65_535 ==> info.port == port
            &&& f[8] == text::decimal(port) && port > 65_535 ==> info.port == 8009
            &&& f[8].len() == 0 ==> info.port == 8009
            &&& info.port > 0
        },
{
    text::law_number_is_read_back(port, 65_535);
}

/// A line reports by its first field: `=` a resolved service, `-` one that is gone and
/// has a name, anything else nothing. Blank lines and comments report nothing.
pub proof fn law_lines_report_by_their_kind(line: Seq<char>, r: Option<AvahiEvent>)
    requires
        avahi_result(line, r),
    ensures
        ({
            let t = text::trimmed(line);
            let f = fields(t);
            &&& t.len() == 0 ==> r is None
            &&& t.len() > 0 && t[0] == '#' ==> r is None
            &&& r is Some ==> f[0] == "="@ || f[0] == "-"@
            &&& t.len() > 0 && t[0] != '#' && f[0] == "-"@ ==> (r is Some <==> f.len() >= 4
                && f[3].len() > 0)
            &&& r matches Some(AvahiEvent::Removed { instance }) ==> instance@ == f[3] && f[0]
                == "-"@
            &&& r matches Some(AvahiEvent::Resolved { instance, info }) ==> instance@ == f[3]
                && f[0] == "="@
            &&& t.len() > 0 && t[0] != '#' && f[0] == "="@ ==> resolved_line(f, r)
        }),
{
    reveal_strlit("-");
    reveal_strlit("=");
    let f = fields(text::trimmed(line));
    if f[0] == "="@ && f[0] == "-"@ {
        assert("="@[0] == '=' && "-"@[0] == '-');
    }
}

} // verus!
