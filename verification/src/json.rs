//! Rendering of JSON text: string escaping, quoting, and arrays of strings.
//!
//! The request bodies the client sends and the JSON form of an extraction
//! result are built from these pieces, each pinned to an exact specification
//! over character sequences.

use vstd::prelude::*;
use vstd::string::StrSliceExecFns;
use vstd::string::StringExecFns;

verus! {

/// One hexadecimal digit, lower case, for `0 <= n <= 15`.
pub open spec fn hex_digit(n: int) -> char {
    if n < 10 {
        crate::util::dec_digit(n)
    } else if n == 10 {
        'a'
    } else if n == 11 {
        'b'
    } else if n == 12 {
        'c'
    } else if n == 13 {
        'd'
    } else if n == 14 {
        'e'
    } else {
        'f'
    }
}

fn hex_digit_char(d: u32) -> (c: char)
    requires
        d <= 15,
    ensures
        c == hex_digit(d as int),
{
    match d {
        0 => '0',
        1 => '1',
        2 => '2',
        3 => '3',
        4 => '4',
        5 => '5',
        6 => '6',
        7 => '7',
        8 => '8',
        9 => '9',
        10 => 'a',
        11 => 'b',
        12 => 'c',
        13 => 'd',
        14 => 'e',
        _ => 'f',
    }
}

/// How one character appears inside a JSON string literal: quote, backslash
/// and the named control characters get a two-character escape, the remaining
/// control characters a `\u00..` escape, and every other character stands as
/// itself.
pub open spec fn json_escape_char(c: char) -> Seq<char> {
    if c == '"' {
        seq!['\\', '"']
    } else if c == '\\' {
        seq!['\\', '\\']
    } else if c == '\n' {
        seq!['\\', 'n']
    } else if c == '\r' {
        seq!['\\', 'r']
    } else if c == '\t' {
        seq!['\\', 't']
    } else if c == '\u{8}' {
        seq!['\\', 'b']
    } else if c == '\u{c}' {
        seq!['\\', 'f']
    } else if (c as u32) < 0x20 {
        seq!['\\', 'u', '0', '0', hex_digit((c as u32) as int / 16), hex_digit((c as u32) as int % 16)]
    } else {
        seq![c]
    }
}

/// The body of a JSON string literal holding the characters of `s`.
pub open spec fn json_escaped(s: Seq<char>) -> Seq<char>
    decreases s.len(),
{
    if s.len() == 0 {
        Seq::empty()
    } else {
        json_escaped(s.drop_last()) + json_escape_char(s.last())
    }
}

/// The JSON string literal holding the characters of `s`, quotes included.
pub open spec fn json_quoted(s: Seq<char>) -> Seq<char> {
    seq!['"'] + json_escaped(s) + seq!['"']
}

/// Escapes `s` for use inside a JSON string literal.
pub fn escape_json(s: &str) -> (r: String)
    ensures
        r@ == json_escaped(s@),
{
    let n = s.unicode_len();
    let mut out = String::new();
    let mut i: usize = 0;
    while i < n
        invariant
            i <= n,
            n == s@.len(),
            out@ == json_escaped(s@.subrange(0, i as int)),
        decreases n - i,
    {
        let c = s.get_char(i);
        if c == '"' {
            out.append("\\\"");
            proof {
                reveal_strlit("\\\"");
            }
        } else if c == '\\' {
            out.append("\\\\");
            proof {
                reveal_strlit("\\\\");
            }
        } else if c == '\n' {
            out.append("\\n");
            proof {
                reveal_strlit("\\n");
            }
        } else if c == '\r' {
            out.append("\\r");
            proof {
                reveal_strlit("\\r");
            }
        } else if c == '\t' {
            out.append("\\t");
            proof {
                reveal_strlit("\\t");
            }
        } else if c == '\u{8}' {
            out.append("\\b");
            proof {
                reveal_strlit("\\b");
            }
        } else if (c as u32) < 0x20 && c != '\u{c}' {
            let code: u32 = c as u32;
            out.append("\\u00");
            out.push(hex_digit_char(code / 16));
            out.push(hex_digit_char(code % 16));
            proof {
                reveal_strlit("\\u00");
            }
        } else if c == '\u{c}' {
            out.append("\\f");
            proof {
                reveal_strlit("\\f");
            }
        } else {
            out.push(c);
        }
        proof {
            assert(s@.subrange(0, i + 1 as int).drop_last() =~= s@.subrange(0, i as int));
            assert(s@.subrange(0, i + 1 as int).last() == c);
            assert(out@ =~= json_escaped(s@.subrange(0, i + 1 as int)));
        }
        i = i + 1;
    }
    proof {
        assert(s@.subrange(0, n as int) =~= s@);
    }
    out
}

/// Renders `s` as a JSON string literal, quotes included.
pub fn json_string(s: &str) -> (r: String)
    ensures
        r@ == json_quoted(s@),
{
    let mut out = String::from_str("\"");
    let escaped = escape_json(s);
    out.append(escaped.as_str());
    out.append("\"");
    proof {
        reveal_strlit("\"");
        assert(out@ =~= json_quoted(s@));
    }
    out
}

/// The elements joined by commas.
pub open spec fn comma_joined(elems: Seq<Seq<char>>) -> Seq<char>
    decreases elems.len(),
{
    if elems.len() == 0 {
        Seq::empty()
    } else if elems.len() == 1 {
        elems[0]
    } else {
        comma_joined(elems.drop_last()) + seq![','] + elems.last()
    }
}

/// A JSON array whose elements are the strings of `elems`, each quoted.
pub open spec fn json_string_array(elems: Seq<Seq<char>>) -> Seq<char> {
    seq!['['] + comma_joined(elems.map_values(|e: Seq<char>| json_quoted(e))) + seq![']']
}

/// Renders a JSON array of string literals.
pub fn json_string_array_exec(v: &Vec<String>) -> (r: String)
    ensures
        r@ == json_string_array(v.deep_view()),
{
    let ghost q: Seq<Seq<char>> = v.deep_view().map_values(|e: Seq<char>| json_quoted(e));
    let mut out = String::from_str("[");
    proof {
        reveal_strlit("[");
        assert(out@ =~= seq!['['] + comma_joined(q.subrange(0, 0)));
    }
    let n = v.len();
    let mut i: usize = 0;
    while i < n
        invariant
            i <= n,
            n == v@.len(),
            q == v.deep_view().map_values(|e: Seq<char>| json_quoted(e)),
            q.len() == n,
            out@ == seq!['['] + comma_joined(q.subrange(0, i as int)),
        decreases n - i,
    {
        if i > 0 {
            out.push(',');
        }
        let quoted = json_string(v[i].as_str());
        out.append(quoted.as_str());
        proof {
            assert(q[i as int] == json_quoted(v@[i as int]@));
            assert(q.subrange(0, i + 1 as int).drop_last() =~= q.subrange(0, i as int));
            assert(q.subrange(0, i + 1 as int).last() == q[i as int]);
            assert(out@ =~= seq!['['] + comma_joined(q.subrange(0, i + 1 as int)));
        }
        i = i + 1;
    }
    out.append("]");
    proof {
        reveal_strlit("]");
        assert(q.subrange(0, n as int) =~= q);
        assert(out@ =~= json_string_array(v.deep_view()));
    }
    out
}

/// The body of a string literal can also be read off the front, one
/// character's escape at a time.
proof fn lemma_escaped_front(s: Seq<char>)
    requires
        s.len() > 0,
    ensures
        json_escaped(s) == json_escape_char(s[0]) + json_escaped(s.drop_first()),
    decreases s.len(),
{
    if s.len() == 1 {
        assert(s.drop_last() =~= Seq::<char>::empty());
        assert(s.drop_first() =~= Seq::<char>::empty());
        assert(json_escaped(s) =~= json_escape_char(s[0]) + json_escaped(s.drop_first()));
    } else {
        let t = s.drop_last();
        lemma_escaped_front(t);
        assert(t.drop_first() =~= s.drop_first().drop_last());
        assert(s.drop_first().last() == s.last());
        assert(json_escaped(s) == (json_escape_char(s[0]) + json_escaped(t.drop_first()))
            + json_escape_char(s.last()));
        assert(json_escaped(s) =~= json_escape_char(s[0]) + (json_escaped(t.drop_first())
            + json_escape_char(s.last())));
        assert(json_escaped(s.drop_first()) == json_escaped(t.drop_first()) + json_escape_char(
            s.last(),
        ));
    }
}

/// No character's escape opens with a quote.
proof fn lemma_code_head_not_quote(c: char)
    ensures
        json_escape_char(c).len() > 0,
        json_escape_char(c)[0] != '"',
{
}

/// The escapes form a prefix-free code: where two of them open equal
/// streams, they stand for the same character and the streams go on equally.
proof fn lemma_code_prefix_free(c1: char, c2: char, t1: Seq<char>, t2: Seq<char>)
    requires
        json_escape_char(c1) + t1 == json_escape_char(c2) + t2,
    ensures
        c1 == c2,
        t1 == t2,
{
    let a = json_escape_char(c1);
    let b = json_escape_char(c2);
    let s = a + t1;
    assert(forall|k: int| 0 <= k < a.len() ==> s[k] == a[k]);
    assert(forall|k: int| 0 <= k < b.len() ==> s[k] == b[k]);
    assert(a.len() == b.len()) by {
        if a.len() == 1 && b.len() == 2 {
            assert(s[0] == c1 && s[0] == '\\');
        }
        if a.len() == 2 && b.len() == 1 {
            assert(s[0] == c2 && s[0] == '\\');
        }
        if a.len() == 1 && b.len() == 6 {
            assert(s[0] == c1 && s[0] == '\\');
        }
        if a.len() == 6 && b.len() == 1 {
            assert(s[0] == c2 && s[0] == '\\');
        }
        if a.len() == 2 && b.len() == 6 {
            assert(s[1] == a[1] && s[1] == 'u');
        }
        if a.len() == 6 && b.len() == 2 {
            assert(s[1] == b[1] && s[1] == 'u');
        }
    };
    if a.len() == 6 {
        assert(a[4] == b[4] && a[5] == b[5]);
        assert(hex_digit((c1 as u32) as int / 16) == hex_digit((c2 as u32) as int / 16));
        assert(hex_digit((c1 as u32) as int % 16) == hex_digit((c2 as u32) as int % 16));
        assert((c1 as u32) / 16 == (c2 as u32) / 16);
        assert((c1 as u32) % 16 == (c2 as u32) % 16);
        assert(c1 as u32 == c2 as u32);
        assert(c1 == c2);
    } else if a.len() == 2 {
        assert(a[1] == b[1]);
        assert(c1 == c2);
    } else {
        assert(a[0] == b[0]);
        assert(c1 == c2);
    }
    assert((a + t1).len() == a.len() + t1.len());
    assert((b + t2).len() == b.len() + t2.len());
    assert(t1.len() == t2.len());
    assert forall|k: int| 0 <= k < t1.len() implies t1[k] == t2[k] by {
        assert(s[a.len() + k] == t1[k]);
        assert((b + t2)[b.len() + k] == t2[k]);
    };
    assert(t1 =~= t2);
}

/// An escaped body followed by its closing quote can be read back uniquely:
/// the quote that ends it cannot be mistaken for part of the body.
proof fn lemma_escaped_terminated(x: Seq<char>, y: Seq<char>, u: Seq<char>, v: Seq<char>)
    requires
        json_escaped(x) + seq!['"'] + u == json_escaped(y) + seq!['"'] + v,
    ensures
        x == y,
        u == v,
    decreases x.len(),
{
    let s = json_escaped(x) + seq!['"'] + u;
    if x.len() == 0 {
        assert(s[0] == '"');
        if y.len() > 0 {
            lemma_escaped_front(y);
            lemma_code_head_not_quote(y[0]);
            assert(s[0] == json_escape_char(y[0])[0]);
            assert(false);
        }
        assert(x =~= y);
        assert(json_escaped(x).len() == 0 && json_escaped(y).len() == 0);
        assert(s.len() == 1 + u.len());
        assert((json_escaped(y) + seq!['"'] + v).len() == 1 + v.len());
        assert(u.len() == v.len());
        assert forall|k: int| 0 <= k < u.len() implies u[k] == v[k] by {
            assert(s[1 + k] == u[k]);
            assert((json_escaped(y) + seq!['"'] + v)[1 + k] == v[k]);
        };
        assert(u =~= v);
    } else {
        lemma_escaped_front(x);
        lemma_code_head_not_quote(x[0]);
        if y.len() == 0 {
            assert(s[0] == '"');
            assert(s[0] == json_escape_char(x[0])[0]);
            assert(false);
        }
        lemma_escaped_front(y);
        let xr = x.drop_first();
        let yr = y.drop_first();
        assert(json_escape_char(x[0]) + (json_escaped(xr) + seq!['"'] + u) =~= s);
        assert(json_escape_char(y[0]) + (json_escaped(yr) + seq!['"'] + v) =~= s);
        lemma_code_prefix_free(
            x[0],
            y[0],
            json_escaped(xr) + seq!['"'] + u,
            json_escaped(yr) + seq!['"'] + v,
        );
        lemma_escaped_terminated(xr, yr, u, v);
        assert forall|k: int| 0 <= k < x.len() implies x[k] == y[k] by {
            if k > 0 {
                assert(x[k] == xr[k - 1]);
                assert(y[k] == yr[k - 1]);
            }
        };
        assert(x =~= y);
    }
}

/// A string literal is self-delimiting: where two quoted strings open equal
/// streams, the contents agree and the streams go on equally.
pub proof fn lemma_quoted_prefix_free(x: Seq<char>, y: Seq<char>, u: Seq<char>, v: Seq<char>)
    requires
        json_quoted(x) + u == json_quoted(y) + v,
    ensures
        x == y,
        u == v,
{
    let s = json_quoted(x) + u;
    assert(json_escaped(x) + seq!['"'] + u =~= s.drop_first());
    assert(json_escaped(y) + seq!['"'] + v =~= (json_quoted(y) + v).drop_first());
    lemma_escaped_terminated(x, y, u, v);
}

/// A joined list can also be read off the front, one element at a time.
proof fn lemma_comma_joined_front(elems: Seq<Seq<char>>)
    requires
        elems.len() > 0,
    ensures
        comma_joined(elems) == elems[0] + (if elems.len() == 1 {
            Seq::<char>::empty()
        } else {
            seq![','] + comma_joined(elems.drop_first())
        }),
    decreases elems.len(),
{
    if elems.len() == 1 {
        assert(comma_joined(elems) =~= elems[0] + Seq::<char>::empty());
    } else if elems.len() == 2 {
        let t = elems.drop_last();
        assert(comma_joined(t) == t[0]);
        assert(t[0] == elems[0]);
        let e = elems.drop_first();
        assert(comma_joined(e) == e[0]);
        assert(e[0] == elems[1]);
        assert(elems.last() == elems[1]);
        assert(comma_joined(elems) == comma_joined(t) + seq![','] + elems.last());
        assert(comma_joined(elems) =~= elems[0] + (seq![','] + comma_joined(elems.drop_first())));
    } else {
        let t = elems.drop_last();
        let e = elems.drop_first();
        lemma_comma_joined_front(t);
        assert(t[0] == elems[0]);
        assert(t.len() >= 2);
        assert(comma_joined(t) == t[0] + (seq![','] + comma_joined(t.drop_first())));
        assert(t.drop_first() =~= e.drop_last());
        assert(e.last() == elems.last());
        assert(e.len() >= 2);
        assert(comma_joined(e) == comma_joined(e.drop_last()) + seq![','] + e.last());
        assert(comma_joined(elems) == comma_joined(t) + seq![','] + elems.last());
        assert(comma_joined(elems) =~= elems[0] + (seq![','] + comma_joined(elems.drop_first())));
    }
}

/// An array of string literals is self-delimiting, element by element: the
/// bracket that ends it and the commas between elements cannot be mistaken
/// for content.
proof fn lemma_quoted_items_terminated(
    es: Seq<Seq<char>>,
    fs: Seq<Seq<char>>,
    u: Seq<char>,
    v: Seq<char>,
)
    requires
        comma_joined(es.map_values(|e: Seq<char>| json_quoted(e))) + seq![']'] + u == comma_joined(
            fs.map_values(|e: Seq<char>| json_quoted(e)),
        ) + seq![']'] + v,
    ensures
        es == fs,
        u == v,
    decreases es.len(),
{
    let qes = es.map_values(|e: Seq<char>| json_quoted(e));
    let qfs = fs.map_values(|e: Seq<char>| json_quoted(e));
    let s = comma_joined(qes) + seq![']'] + u;
    if es.len() == 0 {
        assert(s[0] == ']');
        if fs.len() > 0 {
            lemma_comma_joined_front(qfs);
            assert(qfs[0] == json_quoted(fs[0]));
            assert(s[0] == qfs[0][0]);
            assert(qfs[0][0] == '"');
            assert(false);
        }
        assert(es =~= fs);
        assert(u =~= v) by {
            assert(forall|k: int| 0 <= k < u.len() ==> u[k] == s[1 + k]);
            assert(forall|k: int| 0 <= k < v.len() ==> v[k] == s[1 + k]);
        };
    } else {
        lemma_comma_joined_front(qes);
        assert(qes[0] == json_quoted(es[0]));
        assert(qes[0][0] == '"');
        if fs.len() == 0 {
            assert(s[0] == ']');
            assert(s[0] == qes[0][0]);
            assert(false);
        }
        lemma_comma_joined_front(qfs);
        assert(qfs[0] == json_quoted(fs[0]));
        let resta: Seq<char> = (if es.len() == 1 {
            Seq::<char>::empty()
        } else {
            seq![','] + comma_joined(qes.drop_first())
        }) + seq![']'] + u;
        let restb: Seq<char> = (if fs.len() == 1 {
            Seq::<char>::empty()
        } else {
            seq![','] + comma_joined(qfs.drop_first())
        }) + seq![']'] + v;
        assert(json_quoted(es[0]) + resta =~= s);
        assert(json_quoted(fs[0]) + restb =~= s);
        lemma_quoted_prefix_free(es[0], fs[0], resta, restb);
        if es.len() == 1 && fs.len() > 1 {
            assert(resta[0] == ']');
            assert(restb[0] == ',');
            assert(false);
        }
        if es.len() > 1 && fs.len() == 1 {
            assert(resta[0] == ',');
            assert(restb[0] == ']');
            assert(false);
        }
        if es.len() == 1 {
            assert(es =~= fs);
            assert(u =~= v) by {
                assert(forall|k: int| 0 <= k < u.len() ==> u[k] == resta[1 + k]);
                assert(forall|k: int| 0 <= k < v.len() ==> v[k] == restb[1 + k]);
            };
        } else {
            assert(es.drop_first().map_values(|e: Seq<char>| json_quoted(e)) =~= qes.drop_first());
            assert(fs.drop_first().map_values(|e: Seq<char>| json_quoted(e)) =~= qfs.drop_first());
            assert(comma_joined(qes.drop_first()) + seq![']'] + u =~= resta.drop_first());
            assert(comma_joined(qfs.drop_first()) + seq![']'] + v =~= restb.drop_first());
            lemma_quoted_items_terminated(es.drop_first(), fs.drop_first(), u, v);
            assert forall|k: int| 0 <= k < es.len() implies es[k] == fs[k] by {
                if k > 0 {
                    assert(es[k] == es.drop_first()[k - 1]);
                    assert(fs[k] == fs.drop_first()[k - 1]);
                }
            };
            assert(es =~= fs);
        }
    }
}

/// An array of string literals is self-delimiting: where two such arrays
/// open equal streams, the elements agree and the streams go on equally.
pub proof fn lemma_string_array_prefix_free(
    es: Seq<Seq<char>>,
    fs: Seq<Seq<char>>,
    u: Seq<char>,
    v: Seq<char>,
)
    requires
        json_string_array(es) + u == json_string_array(fs) + v,
    ensures
        es == fs,
        u == v,
{
    let s = json_string_array(es) + u;
    assert(comma_joined(es.map_values(|e: Seq<char>| json_quoted(e))) + seq![']'] + u
        =~= s.drop_first());
    assert(comma_joined(fs.map_values(|e: Seq<char>| json_quoted(e))) + seq![']'] + v =~= (
    json_string_array(fs) + v).drop_first());
    lemma_quoted_items_terminated(es, fs, u, v);
}

/// A quoted string, or the JSON `null` for an absent one.
pub open spec fn json_opt_quoted(e: Option<Seq<char>>) -> Seq<char> {
    match e {
        Some(s) => json_quoted(s),
        None => seq!['n', 'u', 'l', 'l'],
    }
}

/// A JSON array whose elements are string literals or `null`.
pub open spec fn json_opt_string_array(elems: Seq<Option<Seq<char>>>) -> Seq<char> {
    seq!['['] + comma_joined(elems.map_values(|e: Option<Seq<char>>| json_opt_quoted(e))) + seq![']']
}

/// Renders a JSON array whose elements are string literals or `null`.
pub fn json_opt_string_array_exec(v: &Vec<Option<String>>) -> (r: String)
    ensures
        r@ == json_opt_string_array(v.deep_view()),
{
    let ghost q: Seq<Seq<char>> = v.deep_view().map_values(
        |e: Option<Seq<char>>| json_opt_quoted(e),
    );
    let mut out = String::from_str("[");
    proof {
        reveal_strlit("[");
        assert(out@ =~= seq!['['] + comma_joined(q.subrange(0, 0)));
    }
    let n = v.len();
    let mut i: usize = 0;
    while i < n
        invariant
            i <= n,
            n == v@.len(),
            q == v.deep_view().map_values(|e: Option<Seq<char>>| json_opt_quoted(e)),
            q.len() == n,
            out@ == seq!['['] + comma_joined(q.subrange(0, i as int)),
        decreases n - i,
    {
        if i > 0 {
            out.push(',');
        }
        match &v[i] {
            Some(s) => {
                let quoted = json_string(s.as_str());
                out.append(quoted.as_str());
            },
            None => {
                out.append("null");
                proof {
                    reveal_strlit("null");
                }
            },
        }
        proof {
            assert(q[i as int] == json_opt_quoted(v.deep_view()[i as int]));
            assert(q.subrange(0, i + 1 as int).drop_last() =~= q.subrange(0, i as int));
            assert(q.subrange(0, i + 1 as int).last() == q[i as int]);
            assert(out@ =~= seq!['['] + comma_joined(q.subrange(0, i + 1 as int)));
        }
        i = i + 1;
    }
    out.append("]");
    proof {
        reveal_strlit("]");
        assert(q.subrange(0, n as int) =~= q);
        assert(out@ =~= json_opt_string_array(v.deep_view()));
    }
    out
}

} // verus!
