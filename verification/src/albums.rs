use vstd::prelude::*;

verus! {

use vstd::string::StrSliceExecFns;

/// The album-search response envelope is the JSON value
/// `{"albums":["...","..."]}`: one object with the single key `albums`
/// holding an array of strings. The grammar below follows JSON:
/// insignificant whitespace is allowed between tokens, the string
/// escapes `\"` `\\` `\/` `\b` `\f` `\n` `\r` `\t` and `\uXXXX`
/// (surrogate pairs included) are decoded, and a raw control character,
/// an invalid escape or a lone surrogate is refused. `run` is the
/// grammar, written as a state machine over the characters; the decoder
/// below returns exactly what `run` accepts.

/// Relies on String::push: appends the given character to the end of the
/// string.
pub assume_specification[ String::push ](s: &mut String, ch: char)
    ensures
        final(s)@ == old(s)@.push(ch),
;

/// Relies on char::from_u32: `Some` exactly for Unicode scalar values
/// (not a surrogate, at most 0x10FFFF), carrying the character with that
/// code point.
pub assume_specification[ char::from_u32 ](v: u32) -> (r: Option<char>)
    ensures
        r is Some <==> (v < 0xD800 || (0xE000 <= v && v <= 0x10FFFF)),
        r is Some ==> r->0 as u32 == v,
;

/// Insignificant whitespace between JSON tokens.
pub open spec fn is_json_ws(c: char) -> bool {
    c == ' ' || c == '\t' || c == '\n' || c == '\r'
}

pub open spec fn is_hex_digit(c: char) -> bool {
    ('0' <= c && c <= '9') || ('a' <= c && c <= 'f') || ('A' <= c && c <= 'F')
}

pub open spec fn hex_digit_val(c: char) -> int {
    if '0' <= c && c <= '9' {
        c as int - '0' as int
    } else if 'a' <= c && c <= 'f' {
        c as int - 'a' as int + 10
    } else {
        c as int - 'A' as int + 10
    }
}

pub open spec fn hex4_ok(s: Seq<char>, i: int) -> bool {
    is_hex_digit(s[i]) && is_hex_digit(s[i + 1]) && is_hex_digit(s[i + 2]) && is_hex_digit(
        s[i + 3],
    )
}

pub open spec fn hex4_val(s: Seq<char>, i: int) -> int {
    hex_digit_val(s[i]) * 0x1000 + hex_digit_val(s[i + 1]) * 0x100 + hex_digit_val(s[i + 2]) * 0x10
        + hex_digit_val(s[i + 3])
}

/// The character with the given code point.
pub open spec fn code_char(n: int) -> char {
    (n as u32) as char
}

/// What a single-character escape decodes to, when it is one.
pub open spec fn simple_escape(c: char) -> Option<char> {
    if c == '"' {
        Some('"')
    } else if c == '\\' {
        Some('\\')
    } else if c == '/' {
        Some('/')
    } else if c == 'b' {
        Some('\u{8}')
    } else if c == 'f' {
        Some('\u{c}')
    } else if c == 'n' {
        Some('\n')
    } else if c == 'r' {
        Some('\r')
    } else if c == 't' {
        Some('\t')
    } else {
        None
    }
}

pub open spec fn is_high_surrogate(n: int) -> bool {
    0xD800 <= n < 0xDC00
}

pub open spec fn is_low_surrogate(n: int) -> bool {
    0xDC00 <= n < 0xE000
}

/// The decoded key the envelope must carry.
pub open spec fn key_seq() -> Seq<char> {
    seq!['a', 'l', 'b', 'u', 'm', 's']
}

/// Which string the decoder is inside: the object key or an album name.
#[derive(Clone, Copy)]
pub enum StrKind {
    Key,
    Name,
}

/// The decoder's state between characters: which token boundary it
/// stands at, or which string it is inside.
#[derive(Clone, Copy)]
pub enum Mode {
    Start,
    BeforeKey,
    InString(StrKind),
    AfterKey,
    BeforeArray,
    BeforeFirstItem,
    AfterName,
    BeforeItem,
    AfterArray,
    AfterClose,
}

/// The envelope grammar, as a state machine over the characters from
/// position `i` on: `names` are the decoded album names so far, `cur`
/// the decoded content of the string being read. The result is the full
/// name list when the remaining text completes a well-formed envelope,
/// and nothing otherwise.
pub open spec fn run(
    s: Seq<char>,
    i: int,
    m: Mode,
    names: Seq<Seq<char>>,
    cur: Seq<char>,
) -> Option<Seq<Seq<char>>>
    recommends
        0 <= i,
    decreases s.len() - i,
{
    if i >= s.len() {
        if m is AfterClose {
            Some(names)
        } else {
            None
        }
    } else {
        let c = s[i];
        match m {
            Mode::Start => if is_json_ws(c) {
                run(s, i + 1, m, names, cur)
            } else if c == '{' {
                run(s, i + 1, Mode::BeforeKey, names, cur)
            } else {
                None
            },
            Mode::BeforeKey => if is_json_ws(c) {
                run(s, i + 1, m, names, cur)
            } else if c == '"' {
                run(s, i + 1, Mode::InString(StrKind::Key), names, Seq::empty())
            } else {
                None
            },
            Mode::InString(kind) => if c == '"' {
                match kind {
                    StrKind::Key => if cur == key_seq() {
                        run(s, i + 1, Mode::AfterKey, names, Seq::empty())
                    } else {
                        None
                    },
                    StrKind::Name => run(s, i + 1, Mode::AfterName, names.push(cur), Seq::empty()),
                }
            } else if c == '\\' {
                if i + 2 > s.len() {
                    None
                } else {
                    let e = s[i + 1];
                    if e == 'u' {
                        if i + 6 > s.len() || !hex4_ok(s, i + 2) {
                            None
                        } else {
                            let n1 = hex4_val(s, i + 2);
                            if is_high_surrogate(n1) {
                                if i + 12 > s.len() || s[i + 6] != '\\' || s[i + 7] != 'u'
                                    || !hex4_ok(s, i + 8) {
                                    None
                                } else {
                                    let n2 = hex4_val(s, i + 8);
                                    if is_low_surrogate(n2) {
                                        run(
                                            s,
                                            i + 12,
                                            m,
                                            names,
                                            cur.push(
                                                code_char(
                                                    0x10000 + (n1 - 0xD800) * 0x400 + (n2 - 0xDC00),
                                                ),
                                            ),
                                        )
                                    } else {
                                        None
                                    }
                                }
                            } else if is_low_surrogate(n1) {
                                None
                            } else {
                                run(s, i + 6, m, names, cur.push(code_char(n1)))
                            }
                        }
                    } else {
                        match simple_escape(e) {
                            None => None,
                            Some(d) => run(s, i + 2, m, names, cur.push(d)),
                        }
                    }
                }
            } else if (c as int) < 0x20 {
                None
            } else {
                run(s, i + 1, m, names, cur.push(c))
            },
            Mode::AfterKey => if is_json_ws(c) {
                run(s, i + 1, m, names, cur)
            } else if c == ':' {
                run(s, i + 1, Mode::BeforeArray, names, cur)
            } else {
                None
            },
            Mode::BeforeArray => if is_json_ws(c) {
                run(s, i + 1, m, names, cur)
            } else if c == '[' {
                run(s, i + 1, Mode::BeforeFirstItem, names, cur)
            } else {
                None
            },
            Mode::BeforeFirstItem => if is_json_ws(c) {
                run(s, i + 1, m, names, cur)
            } else if c == ']' {
                run(s, i + 1, Mode::AfterArray, names, cur)
            } else if c == '"' {
                run(s, i + 1, Mode::InString(StrKind::Name), names, Seq::empty())
            } else {
                None
            },
            Mode::AfterName => if is_json_ws(c) {
                run(s, i + 1, m, names, cur)
            } else if c == ',' {
                run(s, i + 1, Mode::BeforeItem, names, cur)
            } else if c == ']' {
                run(s, i + 1, Mode::AfterArray, names, cur)
            } else {
                None
            },
            Mode::BeforeItem => if is_json_ws(c) {
                run(s, i + 1, m, names, cur)
            } else if c == '"' {
                run(s, i + 1, Mode::InString(StrKind::Name), names, Seq::empty())
            } else {
                None
            },
            Mode::AfterArray => if is_json_ws(c) {
                run(s, i + 1, m, names, cur)
            } else if c == '}' {
                run(s, i + 1, Mode::AfterClose, names, cur)
            } else {
                None
            },
            Mode::AfterClose => if is_json_ws(c) {
                run(s, i + 1, m, names, cur)
            } else {
                None
            },
        }
    }
}

/// The names an album-search body decodes to, when it is a well-formed
/// envelope.
pub open spec fn spec_parse_albums(s: Seq<char>) -> Option<Seq<Seq<char>>> {
    run(s, 0, Mode::Start, Seq::<Seq<char>>::empty(), Seq::<char>::empty())
}

/// A name's characters as a JSON serializer writes them between the
/// quotes: `"` and `\` escaped, everything else verbatim.
pub open spec fn escape_chars(name: Seq<char>) -> Seq<char>
    decreases name.len(),
{
    if name.len() == 0 {
        Seq::empty()
    } else {
        let head: Seq<char> = if name[0] == '"' {
            seq!['\\', '"']
        } else if name[0] == '\\' {
            seq!['\\', '\\']
        } else {
            seq![name[0]]
        };
        head + escape_chars(name.drop_first())
    }
}

/// One quoted, escaped name.
pub open spec fn render_name(name: Seq<char>) -> Seq<char> {
    seq!['"'] + escape_chars(name) + seq!['"']
}

/// The comma-separated quoted names inside the array.
pub open spec fn render_items(names: Seq<Seq<char>>) -> Seq<char>
    recommends
        names.len() > 0,
    decreases names.len(),
{
    if names.len() <= 1 {
        render_name(names[0])
    } else {
        render_name(names[0]) + seq![','] + render_items(names.drop_first())
    }
}

/// The whole envelope, serialized compactly.
pub open spec fn render_albums(names: Seq<Seq<char>>) -> Seq<char> {
    envelope_prefix() + (if names.len() == 0 {
        Seq::<char>::empty()
    } else {
        render_items(names)
    }) + seq![']', '}']
}

/// The eleven characters the envelope opens with: `{"albums":[`.
pub open spec fn envelope_prefix() -> Seq<char> {
    seq!['{', '"', 'a', 'l', 'b', 'u', 'm', 's', '"', ':', '[']
}

/// A name a JSON string can carry with quote-and-backslash escaping
/// alone: one with no control characters (those would need `\uXXXX`).
pub open spec fn escapable(name: Seq<char>) -> bool {
    forall|k: int| 0 <= k < name.len() ==> (#[trigger] name[k]) as int >= 0x20
}

pub open spec fn all_escapable(names: Seq<Seq<char>>) -> bool {
    forall|j: int| 0 <= j < names.len() ==> escapable(#[trigger] names[j])
}

proof fn lemma_escape_plain(p: Seq<char>)
    requires
        forall|k: int| 0 <= k < p.len() ==> (#[trigger] p[k]) != '"' && p[k] != '\\',
    ensures
        escape_chars(p) == p,
    decreases p.len(),
{
    if p.len() > 0 {
        lemma_escape_plain(p.drop_first());
        assert(seq![p[0]] + p.drop_first() =~= p);
    }
}

proof fn lemma_run_string(
    s: Seq<char>,
    i: int,
    part: Seq<char>,
    kind: StrKind,
    names: Seq<Seq<char>>,
    cur: Seq<char>,
)
    requires
        0 <= i,
        i + escape_chars(part).len() <= s.len(),
        s.subrange(i, i + escape_chars(part).len() as int) == escape_chars(part),
        escapable(part),
    ensures
        run(s, i, Mode::InString(kind), names, cur) == run(
            s,
            i + escape_chars(part).len() as int,
            Mode::InString(kind),
            names,
            cur + part,
        ),
    decreases part.len(),
{
    let e = escape_chars(part);
    if part.len() == 0 {
        assert(cur + part =~= cur);
    } else {
        let c0 = part[0];
        assert(c0 as int >= 0x20);
        let rest = part.drop_first();
        let erest = escape_chars(rest);
        assert(escapable(rest)) by {
            assert(forall|k: int| 0 <= k < rest.len() ==> rest[k] == part[k + 1]);
        }
        if c0 == '"' || c0 == '\\' {
            assert(e =~= seq!['\\', c0] + erest);
            assert(s[i] == '\\') by {
                assert(s.subrange(i, i + e.len() as int)[0] == e[0]);
            }
            assert(s[i + 1] == c0) by {
                assert(s.subrange(i, i + e.len() as int)[1] == e[1]);
            }
            assert(simple_escape(c0) == Some(c0));
            assert forall|k: int|
                0 <= k < erest.len() implies s.subrange(i + 2, i + 2 + erest.len() as int)[k]
                == erest[k] by {
                assert(s.subrange(i, i + e.len() as int)[k + 2] == e[k + 2]);
                assert(e[k + 2] == erest[k]);
            }
            assert(s.subrange(i + 2, i + 2 + erest.len() as int) =~= erest);
            lemma_run_string(s, i + 2, rest, kind, names, cur.push(c0));
            assert(cur.push(c0) + rest =~= cur + part);
        } else {
            assert(e =~= seq![c0] + erest);
            assert(s[i] == c0) by {
                assert(s.subrange(i, i + e.len() as int)[0] == e[0]);
            }
            assert forall|k: int|
                0 <= k < erest.len() implies s.subrange(i + 1, i + 1 + erest.len() as int)[k]
                == erest[k] by {
                assert(s.subrange(i, i + e.len() as int)[k + 1] == e[k + 1]);
                assert(e[k + 1] == erest[k]);
            }
            assert(s.subrange(i + 1, i + 1 + erest.len() as int) =~= erest);
            lemma_run_string(s, i + 1, rest, kind, names, cur.push(c0));
            assert(cur.push(c0) + rest =~= cur + part);
        }
    }
}

#[verifier::rlimit(100)]
proof fn lemma_run_items(
    s: Seq<char>,
    i: int,
    names_rest: Seq<Seq<char>>,
    acc: Seq<Seq<char>>,
    m: Mode,
)
    requires
        0 <= i,
        names_rest.len() > 0,
        all_escapable(names_rest),
        i + render_items(names_rest).len() <= s.len(),
        s.subrange(i, i + render_items(names_rest).len() as int) == render_items(names_rest),
        m is BeforeFirstItem || m is BeforeItem,
    ensures
        run(s, i, m, acc, Seq::empty()) == run(
            s,
            i + render_items(names_rest).len() as int,
            Mode::AfterName,
            acc + names_rest,
            Seq::empty(),
        ),
    decreases names_rest.len(),
{
    let t = render_items(names_rest);
    let n0 = names_rest[0];
    let esc = escape_chars(n0);
    let rn = render_name(n0);
    assert(escapable(n0));
    assert(rn.len() == esc.len() + 2);
    assert(rn[0] == '"' && rn[rn.len() - 1] == '"');
    assert(forall|k: int| 0 <= k < esc.len() ==> rn[k + 1] == esc[k]);
    if names_rest.len() > 1 {
        assert(t =~= rn + seq![','] + render_items(names_rest.drop_first()));
        assert(forall|k: int| 0 <= k < rn.len() ==> t[k] == rn[k]);
        assert(t[rn.len() as int] == ',');
    } else {
        assert(t == rn);
    }
    let ec = Seq::<char>::empty();
    assert(s[i] == '"') by {
        assert(s.subrange(i, i + t.len() as int)[0] == t[0]);
    }
    assert(run(s, i, m, acc, ec) == run(s, i + 1, Mode::InString(StrKind::Name), acc, ec));
    assert forall|k: int|
        0 <= k < esc.len() implies s.subrange(i + 1, i + 1 + esc.len() as int)[k] == esc[k] by {
        assert(s.subrange(i, i + t.len() as int)[1 + k] == t[1 + k]);
        assert(t[1 + k] == rn[1 + k]);
    }
    assert(s.subrange(i + 1, i + 1 + esc.len() as int) =~= esc);
    lemma_run_string(s, i + 1, n0, StrKind::Name, acc, ec);
    let j = i + 1 + esc.len() as int;
    assert(s[j] == '"') by {
        assert(s.subrange(i, i + t.len() as int)[rn.len() - 1] == t[rn.len() - 1]);
        assert(t[rn.len() - 1] == rn[rn.len() - 1]);
    }
    assert(ec + n0 =~= n0);
    assert(run(s, j, Mode::InString(StrKind::Name), acc, n0) == run(
        s,
        j + 1,
        Mode::AfterName,
        acc.push(n0),
        ec,
    ));
    if names_rest.len() == 1 {
        assert(acc.push(n0) =~= acc + names_rest);
        assert(j + 1 == i + t.len());
    } else {
        let rest = names_rest.drop_first();
        let ri = render_items(rest);
        assert(all_escapable(rest)) by {
            assert(forall|k: int| 0 <= k < rest.len() ==> rest[k] == names_rest[k + 1]);
        }
        assert(s[j + 1] == ',') by {
            assert(s.subrange(i, i + t.len() as int)[rn.len() as int] == t[rn.len() as int]);
        }
        assert(run(s, j + 1, Mode::AfterName, acc.push(n0), ec) == run(
            s,
            j + 2,
            Mode::BeforeItem,
            acc.push(n0),
            ec,
        ));
        assert forall|k: int|
            0 <= k < ri.len() implies s.subrange(j + 2, j + 2 + ri.len() as int)[k] == ri[k] by {
            assert(s.subrange(i, i + t.len() as int)[rn.len() + 1 + k] == t[rn.len() + 1 + k]);
            assert(t[rn.len() + 1 + k] == ri[k]);
        }
        assert(s.subrange(j + 2, j + 2 + ri.len() as int) =~= ri);
        lemma_run_items(s, j + 2, rest, acc.push(n0), Mode::BeforeItem);
        assert(acc.push(n0) + rest =~= acc + names_rest);
        assert(j + 2 + ri.len() == i + t.len());
    }
}

/// Law: decoding is complete for the serialized envelope. Any list of
/// names free of control characters, rendered compactly with `"` and `\`
/// escaped, decodes back to exactly that list. Together with the
/// decoder's exact contract this pins the grammar: whatever the server
/// serializes this way comes back unchanged, and anything outside the
/// grammar is refused.
pub proof fn lemma_parse_render_albums(names: Seq<Seq<char>>)
    requires
        all_escapable(names),
    ensures
        spec_parse_albums(render_albums(names)) == Some(names),
{
    let s = render_albums(names);
    let p = envelope_prefix();
    let mid: Seq<char> = if names.len() == 0 {
        Seq::<char>::empty()
    } else {
        render_items(names)
    };
    let e = Seq::<Seq<char>>::empty();
    let ec = Seq::<char>::empty();
    assert(s.len() == 13 + mid.len());
    assert forall|k: int| 0 <= k < p.len() implies s[k] == p[k] by {
        assert((p + mid)[k] == p[k]);
        assert(((p + mid) + seq![']', '}'])[k] == (p + mid)[k]);
        assert(s =~= (p + mid) + seq![']', '}']);
    }
    assert(s[0] == '{' && s[1] == '"' && s[9] == ':' && s[10] == '[');
    assert(forall|k: int|
        0 <= k < key_seq().len() ==> (#[trigger] key_seq()[k]) != '"' && key_seq()[k] != '\\'
            && key_seq()[k] as int >= 0x20);
    lemma_escape_plain(key_seq());
    assert(escapable(key_seq()));
    assert(s.subrange(2, 8) =~= key_seq());
    assert(run(s, 0, Mode::Start, e, ec) == run(s, 1, Mode::BeforeKey, e, ec));
    assert(run(s, 1, Mode::BeforeKey, e, ec) == run(s, 2, Mode::InString(StrKind::Key), e, ec));
    lemma_run_string(s, 2, key_seq(), StrKind::Key, e, ec);
    assert(s[8] == '"');
    assert(ec + key_seq() =~= key_seq());
    assert(run(s, 8, Mode::InString(StrKind::Key), e, key_seq()) == run(
        s,
        9,
        Mode::AfterKey,
        e,
        ec,
    ));
    assert(run(s, 9, Mode::AfterKey, e, ec) == run(s, 10, Mode::BeforeArray, e, ec));
    assert(run(s, 10, Mode::BeforeArray, e, ec) == run(s, 11, Mode::BeforeFirstItem, e, ec));
    if names.len() == 0 {
        assert(s[11] == ']' && s[12] == '}') by {
            assert(s =~= (p + mid) + seq![']', '}']);
            assert(p + mid =~= p);
            assert(s =~= p + seq![']', '}']);
        }
        assert(run(s, 11, Mode::BeforeFirstItem, e, ec) == run(s, 12, Mode::AfterArray, e, ec));
        assert(run(s, 12, Mode::AfterArray, e, ec) == run(s, 13, Mode::AfterClose, e, ec));
        assert(run(s, 13, Mode::AfterClose, e, ec) == Some(e));
        assert(names =~= e);
    } else {
        assert forall|k: int| 0 <= k < mid.len() + 2 implies s[11 + k] == (mid + seq![']', '}'])[k]
            by {
            assert(s =~= (p + mid) + seq![']', '}']);
            if k < mid.len() {
                assert((p + mid)[11 + k] == mid[k]);
                assert(((p + mid) + seq![']', '}'])[11 + k] == (p + mid)[11 + k]);
            } else {
                assert(((p + mid) + seq![']', '}'])[11 + k] == seq![']', '}'][k - mid.len()]);
            }
            assert((mid + seq![']', '}'])[k] == if k < mid.len() {
                mid[k]
            } else {
                seq![']', '}'][k - mid.len()]
            });
        }
        assert forall|k: int| 0 <= k < mid.len() implies s.subrange(11, 11 + mid.len() as int)[k]
            == mid[k] by {
            assert(s[11 + k] == (mid + seq![']', '}'])[k]);
        }
        assert(s.subrange(11, 11 + mid.len() as int) =~= mid);
        lemma_run_items(s, 11, names, e, Mode::BeforeFirstItem);
        let j = 11 + mid.len() as int;
        assert(e + names =~= names);
        assert(s[j] == ']' && s[j + 1] == '}');
        assert(run(s, j, Mode::AfterName, names, ec) == run(s, j + 1, Mode::AfterArray, names, ec));
        assert(run(s, j + 1, Mode::AfterArray, names, ec) == run(
            s,
            j + 2,
            Mode::AfterClose,
            names,
            ec,
        ));
        assert(run(s, j + 2, Mode::AfterClose, names, ec) == Some(names));
    }
}

/// Whether `c` counts as insignificant whitespace.
fn ws_char(c: char) -> (r: bool)
    ensures
        r == is_json_ws(c),
{
    c == ' ' || c == '\t' || c == '\n' || c == '\r'
}

/// The value of one hex digit, when `c` is one.
fn hex_digit(c: char) -> (r: Option<u32>)
    ensures
        r is Some <==> is_hex_digit(c),
        r is Some ==> r->0 as int == hex_digit_val(c),
{
    if '0' <= c && c <= '9' {
        Some(c as u32 - '0' as u32)
    } else if 'a' <= c && c <= 'f' {
        Some(c as u32 - 'a' as u32 + 10)
    } else if 'A' <= c && c <= 'F' {
        Some(c as u32 - 'A' as u32 + 10)
    } else {
        None
    }
}

/// The value of the four hex digits at `i`, when all four are hex.
fn read_hex4(s: &str, i: usize) -> (r: Option<u32>)
    requires
        i + 4 <= s@.len(),
        s@.len() <= usize::MAX,
    ensures
        r is Some <==> hex4_ok(s@, i as int),
        r is Some ==> r->0 as int == hex4_val(s@, i as int),
{
    let d0 = hex_digit(s.get_char(i));
    let d1 = hex_digit(s.get_char(i + 1));
    let d2 = hex_digit(s.get_char(i + 2));
    let d3 = hex_digit(s.get_char(i + 3));
    match (d0, d1, d2, d3) {
        (Some(v0), Some(v1), Some(v2), Some(v3)) => Some(
            v0 * 0x1000 + v1 * 0x100 + v2 * 0x10 + v3,
        ),
        _ => None,
    }
}

/// Decodes an album-search response body. The result is the decoded name
/// list exactly when the body is a well-formed envelope under `run`;
/// anything else is refused, never acted on in part.
pub fn parse_album_search_response(body: &str) -> (r: Option<Vec<String>>)
    ensures
        r is Some <==> spec_parse_albums(body@) is Some,
        r is Some ==> r->0.deep_view() == spec_parse_albums(body@)->0,
{
    let n: usize = body.unicode_len();
    let mut i: usize = 0;
    let mut m = Mode::Start;
    let mut names: Vec<String> = Vec::new();
    let mut cur = String::new();
    proof {
        assert(names.deep_view() =~= Seq::<Seq<char>>::empty());
    }
    loop
        invariant
            i <= n,
            n == body@.len(),
            spec_parse_albums(body@) == run(body@, i as int, m, names.deep_view(), cur@),
        decreases n - i,
    {
        if i >= n {
            match m {
                Mode::AfterClose => {
                    return Some(names);
                },
                _ => {
                    return None;
                },
            }
        }
        let c = body.get_char(i);
        match m {
            Mode::Start => {
                if ws_char(c) {
                } else if c == '{' {
                    m = Mode::BeforeKey;
                } else {
                    return None;
                }
                i = i + 1;
            },
            Mode::BeforeKey => {
                if ws_char(c) {
                } else if c == '"' {
                    m = Mode::InString(StrKind::Key);
                    cur = String::new();
                } else {
                    return None;
                }
                i = i + 1;
            },
            Mode::InString(kind) => {
                if c == '"' {
                    match kind {
                        StrKind::Key => {
                            let key = String::from_str("albums");
                            proof {
                                reveal_strlit("albums");
                                assert(key@ =~= key_seq());
                            }
                            if cur.eq(&key) {
                                m = Mode::AfterKey;
                                cur = String::new();
                            } else {
                                return None;
                            }
                        },
                        StrKind::Name => {
                            let ghost prev = names.deep_view();
                            let ghost curv = cur@;
                            names.push(cur);
                            proof {
                                assert(names.deep_view() =~= prev.push(curv));
                            }
                            m = Mode::AfterName;
                            cur = String::new();
                        },
                    }
                    i = i + 1;
                } else if c == '\\' {
                    if n - i < 2 {
                        return None;
                    }
                    let e = body.get_char(i + 1);
                    if e == 'u' {
                        if n - i < 6 {
                            return None;
                        }
                        let h1 = match read_hex4(body, i + 2) {
                            Some(v) => v,
                            None => {
                                return None;
                            },
                        };
                        if 0xD800 <= h1 && h1 < 0xDC00 {
                            if n - i < 12 {
                                return None;
                            }
                            if body.get_char(i + 6) != '\\' || body.get_char(i + 7) != 'u' {
                                return None;
                            }
                            let h2 = match read_hex4(body, i + 8) {
                                Some(v) => v,
                                None => {
                                    return None;
                                },
                            };
                            if !(0xDC00 <= h2 && h2 < 0xE000) {
                                return None;
                            }
                            let code: u32 = 0x10000 + (h1 - 0xD800) * 0x400 + (h2 - 0xDC00);
                            let ch = char::from_u32(code).unwrap();
                            proof {
                                vstd::utf8::char_u32_cast(ch, code);
                            }
                            cur.push(ch);
                            i = i + 12;
                        } else if 0xDC00 <= h1 && h1 < 0xE000 {
                            return None;
                        } else {
                            let ch = char::from_u32(h1).unwrap();
                            proof {
                                vstd::utf8::char_u32_cast(ch, h1);
                            }
                            cur.push(ch);
                            i = i + 6;
                        }
                    } else {
                        let d = if e == '"' {
                            '"'
                        } else if e == '\\' {
                            '\\'
                        } else if e == '/' {
                            '/'
                        } else if e == 'b' {
                            '\u{8}'
                        } else if e == 'f' {
                            '\u{c}'
                        } else if e == 'n' {
                            '\n'
                        } else if e == 'r' {
                            '\r'
                        } else if e == 't' {
                            '\t'
                        } else {
                            return None;
                        };
                        cur.push(d);
                        i = i + 2;
                    }
                } else if (c as u32) < 0x20 {
                    return None;
                } else {
                    cur.push(c);
                    i = i + 1;
                }
            },
            Mode::AfterKey => {
                if ws_char(c) {
                } else if c == ':' {
                    m = Mode::BeforeArray;
                } else {
                    return None;
                }
                i = i + 1;
            },
            Mode::BeforeArray => {
                if ws_char(c) {
                } else if c == '[' {
                    m = Mode::BeforeFirstItem;
                } else {
                    return None;
                }
                i = i + 1;
            },
            Mode::BeforeFirstItem => {
                if ws_char(c) {
                } else if c == ']' {
                    m = Mode::AfterArray;
                } else if c == '"' {
                    m = Mode::InString(StrKind::Name);
                    cur = String::new();
                } else {
                    return None;
                }
                i = i + 1;
            },
            Mode::AfterName => {
                if ws_char(c) {
                } else if c == ',' {
                    m = Mode::BeforeItem;
                } else if c == ']' {
                    m = Mode::AfterArray;
                } else {
                    return None;
                }
                i = i + 1;
            },
            Mode::BeforeItem => {
                if ws_char(c) {
                } else if c == '"' {
                    m = Mode::InString(StrKind::Name);
                    cur = String::new();
                } else {
                    return None;
                }
                i = i + 1;
            },
            Mode::AfterArray => {
                if ws_char(c) {
                } else if c == '}' {
                    m = Mode::AfterClose;
                } else {
                    return None;
                }
                i = i + 1;
            },
            Mode::AfterClose => {
                if ws_char(c) {
                } else {
                    return None;
                }
                i = i + 1;
            },
        }
    }
}

} // verus!
