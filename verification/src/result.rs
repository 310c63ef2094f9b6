//! The payload of a finished extraction and its renderings: the JSON form,
//! the plain-text form, and the figures of the human-readable form.

use vstd::prelude::*;
use vstd::string::StrSliceExecFns;
use vstd::string::StringExecFns;
use crate::json::json_opt_string_array;
use crate::json::json_opt_string_array_exec;
use crate::json::json_quoted;
use crate::json::json_string;
use crate::json::json_string_array;
use crate::json::json_string_array_exec;

verus! {

/// What the vendor reports for a finished extraction job. Absent fields were
/// not part of the reply and are omitted again when the result is rendered.
#[derive(Debug)]
pub struct ExtractionResultData {
    pub success: bool,
    pub chunks: Option<Vec<String>>,
    pub text: Option<String>,
    pub metadata: Option<String>,
    pub metadata_schema: Option<String>,
    pub chunks_metadata: Option<Vec<Option<String>>>,
    pub chunks_schema: Option<Vec<Option<String>>>,
    pub error: Option<String>,
}

/// The `chunks` field of the rendering, or nothing.
pub open spec fn seg_chunks(d: ExtractionResultData) -> Seq<char> {
    match d.chunks {
        Some(c) => ",\"chunks\":"@ + json_string_array(c.deep_view()),
        None => Seq::<char>::empty(),
    }
}

/// The `text` field of the rendering, or nothing.
pub open spec fn seg_text(d: ExtractionResultData) -> Seq<char> {
    match d.text {
        Some(t) => ",\"text\":"@ + json_quoted(t@),
        None => Seq::<char>::empty(),
    }
}

/// The `metadata` field of the rendering, or nothing.
pub open spec fn seg_metadata(d: ExtractionResultData) -> Seq<char> {
    match d.metadata {
        Some(m) => ",\"metadata\":"@ + json_quoted(m@),
        None => Seq::<char>::empty(),
    }
}

/// The `metadataSchema` field of the rendering, or nothing.
pub open spec fn seg_metadata_schema(d: ExtractionResultData) -> Seq<char> {
    match d.metadata_schema {
        Some(m) => ",\"metadataSchema\":"@ + json_quoted(m@),
        None => Seq::<char>::empty(),
    }
}

/// The `chunksMetadata` field of the rendering, or nothing.
pub open spec fn seg_chunks_metadata(d: ExtractionResultData) -> Seq<char> {
    match d.chunks_metadata {
        Some(v) => ",\"chunksMetadata\":"@ + json_opt_string_array(v.deep_view()),
        None => Seq::<char>::empty(),
    }
}

/// The `chunksSchema` field of the rendering, or nothing.
pub open spec fn seg_chunks_schema(d: ExtractionResultData) -> Seq<char> {
    match d.chunks_schema {
        Some(v) => ",\"chunksSchema\":"@ + json_opt_string_array(v.deep_view()),
        None => Seq::<char>::empty(),
    }
}

/// The `error` field of the rendering, or nothing.
pub open spec fn seg_error(d: ExtractionResultData) -> Seq<char> {
    match d.error {
        Some(e) => ",\"error\":"@ + json_quoted(e@),
        None => Seq::<char>::empty(),
    }
}

/// `true` or `false`, as JSON spells them.
pub open spec fn bool_seq(b: bool) -> Seq<char> {
    if b {
        "true"@
    } else {
        "false"@
    }
}

/// The JSON rendering of a result: one object, fields in declaration order,
/// absent fields omitted.
pub open spec fn spec_result_json(d: ExtractionResultData) -> Seq<char> {
    "{\"success\":"@ + (bool_seq(d.success) + (seg_chunks(d) + (seg_text(d) + (seg_metadata(d) + (
    seg_metadata_schema(d) + (seg_chunks_metadata(d) + (seg_chunks_schema(d) + (seg_error(d)
        + "}"@))))))))
}

fn append_str_field(out: &mut String, label: &str, v: &Option<String>)
    ensures
        final(out)@ == old(out)@ + (match *v {
            Some(s) => label@ + json_quoted(s@),
            None => Seq::<char>::empty(),
        }),
{
    match v {
        Some(s) => {
            out.append(label);
            let q = json_string(s.as_str());
            out.append(q.as_str());
            proof {
                assert(out@ =~= old(out)@ + (label@ + json_quoted(s@)));
            }
        },
        None => {
            proof {
                assert(out@ =~= old(out)@ + Seq::<char>::empty());
            }
        },
    }
}

fn append_arr_field(out: &mut String, label: &str, v: &Option<Vec<String>>)
    ensures
        final(out)@ == old(out)@ + (match *v {
            Some(c) => label@ + json_string_array(c.deep_view()),
            None => Seq::<char>::empty(),
        }),
{
    match v {
        Some(c) => {
            out.append(label);
            let arr = json_string_array_exec(c);
            out.append(arr.as_str());
            proof {
                assert(out@ =~= old(out)@ + (label@ + json_string_array(c.deep_view())));
            }
        },
        None => {
            proof {
                assert(out@ =~= old(out)@ + Seq::<char>::empty());
            }
        },
    }
}

fn append_opt_arr_field(out: &mut String, label: &str, v: &Option<Vec<Option<String>>>)
    ensures
        final(out)@ == old(out)@ + (match *v {
            Some(c) => label@ + json_opt_string_array(c.deep_view()),
            None => Seq::<char>::empty(),
        }),
{
    match v {
        Some(c) => {
            out.append(label);
            let arr = json_opt_string_array_exec(c);
            out.append(arr.as_str());
            proof {
                assert(out@ =~= old(out)@ + (label@ + json_opt_string_array(c.deep_view())));
            }
        },
        None => {
            proof {
                assert(out@ =~= old(out)@ + Seq::<char>::empty());
            }
        },
    }
}

/// Concatenation can be regrouped.
proof fn lemma_assoc(a: Seq<char>, b: Seq<char>, c: Seq<char>)
    ensures
        (a + b) + c == a + (b + c),
{
    assert((a + b) + c =~= a + (b + c));
}

/// The rendering assembled left to right equals its right-grouped
/// specification.
proof fn lemma_assemble_result_json(d: ExtractionResultData, s: Seq<char>)
    requires
        s == (((((((("{\"success\":"@ + bool_seq(d.success)) + seg_chunks(d)) + seg_text(d))
            + seg_metadata(d)) + seg_metadata_schema(d)) + seg_chunks_metadata(d))
            + seg_chunks_schema(d)) + seg_error(d)) + "}"@,
    ensures
        s == spec_result_json(d),
{
    let p = "{\"success\":"@;
    let b0 = bool_seq(d.success);
    let c = seg_chunks(d);
    let t = seg_text(d);
    let m = seg_metadata(d);
    let ms = seg_metadata_schema(d);
    let cm = seg_chunks_metadata(d);
    let cs = seg_chunks_schema(d);
    let e = seg_error(d);
    let z = "}"@;
    lemma_assoc((((((((p + b0) + c) + t) + m) + ms) + cm) + cs), e, z);
    lemma_assoc(((((((p + b0) + c) + t) + m) + ms) + cm), cs, e + z);
    lemma_assoc((((((p + b0) + c) + t) + m) + ms), cm, cs + (e + z));
    lemma_assoc(((((p + b0) + c) + t) + m), ms, cm + (cs + (e + z)));
    lemma_assoc((((p + b0) + c) + t), m, ms + (cm + (cs + (e + z))));
    lemma_assoc(((p + b0) + c), t, m + (ms + (cm + (cs + (e + z)))));
    lemma_assoc((p + b0), c, t + (m + (ms + (cm + (cs + (e + z))))));
    lemma_assoc(p, b0, c + (t + (m + (ms + (cm + (cs + (e + z)))))));
}

/// Equal streams with equal prefixes have equal tails.
proof fn lemma_strip_prefix(p: Seq<char>, u: Seq<char>, v: Seq<char>)
    requires
        p + u == p + v,
    ensures
        u == v,
{
    assert((p + u).len() == p.len() + u.len());
    assert((p + v).len() == p.len() + v.len());
    assert forall|k: int| 0 <= k < u.len() implies u[k] == v[k] by {
        assert((p + u)[p.len() + k] == u[k]);
        assert((p + v)[p.len() + k] == v[k]);
    };
    assert(u =~= v);
}

/// What the rendering holds right after the chunks position: the closing
/// brace or one of the later fields — and none of those opens like the
/// chunks field itself.
proof fn lemma_after_chunks_head(d: ExtractionResultData, w: Seq<char>)
    requires
        w == seg_text(d) + (seg_metadata(d) + (seg_metadata_schema(d) + (seg_chunks_metadata(d) + (
        seg_chunks_schema(d) + (seg_error(d) + "}"@))))),
    ensures
        w.len() > 0,
        w[0] == '}' || (w[0] == ',' && w.len() > 2 && (w[2] == 't' || w[2] == 'm' || w[2] == 'e'
            || (w[2] == 'c' && w.len() > 8 && (w[8] == 'M' || w[8] == 'S')))),
{
    reveal_strlit(",\"text\":");
    let w1 = seg_metadata(d) + (seg_metadata_schema(d) + (seg_chunks_metadata(d) + (
    seg_chunks_schema(d) + (seg_error(d) + "}"@))));
    if d.text is Some {
        assert(w[0] == ',' && w[2] == 't');
    } else {
        assert(w =~= w1);
        lemma_after_text_head(d, w1);
    }
}

/// What the rendering holds right after the text position: the closing brace
/// or one of the later fields — and none of those opens like the text field
/// itself.
proof fn lemma_after_text_head(d: ExtractionResultData, w: Seq<char>)
    requires
        w == seg_metadata(d) + (seg_metadata_schema(d) + (seg_chunks_metadata(d) + (
        seg_chunks_schema(d) + (seg_error(d) + "}"@)))),
    ensures
        w.len() > 0,
        w[0] == '}' || (w[0] == ',' && w.len() > 2 && (w[2] == 'm' || w[2] == 'e' || (w[2] == 'c'
            && w.len() > 8 && (w[8] == 'M' || w[8] == 'S')))),
{
    reveal_strlit(",\"metadata\":");
    reveal_strlit(",\"metadataSchema\":");
    reveal_strlit(",\"chunksMetadata\":");
    reveal_strlit(",\"chunksSchema\":");
    reveal_strlit(",\"error\":");
    reveal_strlit("}");
    if d.metadata is Some {
        assert(w[0] == ',' && w[2] == 'm');
    } else {
        let w1 = seg_metadata_schema(d) + (seg_chunks_metadata(d) + (seg_chunks_schema(d) + (
        seg_error(d) + "}"@)));
        assert(w =~= w1);
        if d.metadata_schema is Some {
            assert(w1[0] == ',' && w1[2] == 'm');
        } else {
            let w2 = seg_chunks_metadata(d) + (seg_chunks_schema(d) + (seg_error(d) + "}"@));
            assert(w1 =~= w2);
            if d.chunks_metadata is Some {
                assert(w2[0] == ',' && w2[2] == 'c' && w2[8] == 'M');
            } else {
                let w3 = seg_chunks_schema(d) + (seg_error(d) + "}"@);
                assert(w2 =~= w3);
                if d.chunks_schema is Some {
                    assert(w3[0] == ',' && w3[2] == 'c' && w3[8] == 'S');
                } else {
                    let w4 = seg_error(d) + "}"@;
                    assert(w3 =~= w4);
                    if d.error is Some {
                        assert(w4[0] == ',' && w4[2] == 'e');
                    } else {
                        assert(w4 =~= "}"@);
                        assert(w4[0] == '}');
                    }
                }
            }
        }
    }
}

/// The JSON rendering determines the result: two results that render to the
/// same text agree on success, on the chunks and on the extracted text. So
/// a rendering parsed back yields those fields unchanged.
pub proof fn lemma_result_json_injective(a: ExtractionResultData, b: ExtractionResultData)
    requires
        spec_result_json(a) == spec_result_json(b),
    ensures
        a.success == b.success,
        a.chunks is Some <==> b.chunks is Some,
        (a.chunks is Some && b.chunks is Some) ==> a.chunks->0.deep_view()
            == b.chunks->0.deep_view(),
        a.text is Some <==> b.text is Some,
        (a.text is Some && b.text is Some) ==> a.text->0@ == b.text->0@,
{
    reveal_strlit("true");
    reveal_strlit("false");
    reveal_strlit(",\"chunks\":");
    reveal_strlit(",\"text\":");
    let wa = seg_metadata(a) + (seg_metadata_schema(a) + (seg_chunks_metadata(a) + (
    seg_chunks_schema(a) + (seg_error(a) + "}"@))));
    let za = seg_text(a) + wa;
    let ya = seg_chunks(a) + za;
    let xa = bool_seq(a.success) + ya;
    let wb = seg_metadata(b) + (seg_metadata_schema(b) + (seg_chunks_metadata(b) + (
    seg_chunks_schema(b) + (seg_error(b) + "}"@))));
    let zb = seg_text(b) + wb;
    let yb = seg_chunks(b) + zb;
    let xb = bool_seq(b.success) + yb;
    assert(spec_result_json(a) == "{\"success\":"@ + xa);
    assert(spec_result_json(b) == "{\"success\":"@ + xb);
    lemma_strip_prefix("{\"success\":"@, xa, xb);
    assert(a.success == b.success) by {
        if a.success != b.success {
            assert(xa[0] == bool_seq(a.success)[0]);
            assert(xb[0] == bool_seq(b.success)[0]);
        }
    };
    lemma_strip_prefix(bool_seq(a.success), ya, yb);
    if a.chunks is Some && b.chunks is None {
        assert(ya[0] == ',' && ya[2] == 'c' && ya[8] == '"');
        assert(yb =~= zb);
        lemma_after_chunks_head(b, zb);
        assert(false);
    }
    if a.chunks is None && b.chunks is Some {
        assert(yb[0] == ',' && yb[2] == 'c' && yb[8] == '"');
        assert(ya =~= za);
        lemma_after_chunks_head(a, za);
        assert(false);
    }
    if a.chunks is Some && b.chunks is Some {
        let ca = a.chunks->0.deep_view();
        let cb = b.chunks->0.deep_view();
        lemma_assoc(",\"chunks\":"@, crate::json::json_string_array(ca), za);
        lemma_assoc(",\"chunks\":"@, crate::json::json_string_array(cb), zb);
        lemma_strip_prefix(
            ",\"chunks\":"@,
            crate::json::json_string_array(ca) + za,
            crate::json::json_string_array(cb) + zb,
        );
        crate::json::lemma_string_array_prefix_free(ca, cb, za, zb);
    } else {
        assert(ya =~= za);
        assert(yb =~= zb);
    }
    assert(za == zb);
    if a.text is Some && b.text is None {
        assert(za[0] == ',' && za[2] == 't');
        assert(zb =~= wb);
        lemma_after_text_head(b, wb);
        assert(false);
    }
    if a.text is None && b.text is Some {
        assert(zb[0] == ',' && zb[2] == 't');
        assert(za =~= wa);
        lemma_after_text_head(a, wa);
        assert(false);
    }
    if a.text is Some && b.text is Some {
        let ta = a.text->0@;
        let tb = b.text->0@;
        lemma_assoc(",\"text\":"@, json_quoted(ta), wa);
        lemma_assoc(",\"text\":"@, json_quoted(tb), wb);
        lemma_strip_prefix(",\"text\":"@, json_quoted(ta) + wa, json_quoted(tb) + wb);
        crate::json::lemma_quoted_prefix_free(ta, tb, wa, wb);
    }
}

impl ExtractionResultData {
    /// Renders the result as one JSON object, omitting absent fields.
    pub fn to_json_string(&self) -> (r: String)
        ensures
            r@ == spec_result_json(*self),
    {
        let mut out = String::from_str("{\"success\":");
        if self.success {
            out.append("true");
        } else {
            out.append("false");
        }
        append_arr_field(&mut out, ",\"chunks\":", &self.chunks);
        append_str_field(&mut out, ",\"text\":", &self.text);
        append_str_field(&mut out, ",\"metadata\":", &self.metadata);
        append_str_field(&mut out, ",\"metadataSchema\":", &self.metadata_schema);
        append_opt_arr_field(&mut out, ",\"chunksMetadata\":", &self.chunks_metadata);
        append_opt_arr_field(&mut out, ",\"chunksSchema\":", &self.chunks_schema);
        append_str_field(&mut out, ",\"error\":", &self.error);
        out.append("}");
        proof {
            lemma_assemble_result_json(*self, out@);
        }
        out
    }

    /// The plain-text rendering: the extracted text itself, or nothing at all
    /// when the reply carried none.
    pub fn text_output(&self) -> (r: Option<String>)
        ensures
            r is Some <==> self.text is Some,
            r matches Some(t) ==> t@ == self.text->0@,
    {
        match &self.text {
            Some(t) => Some(t.clone()),
            None => None,
        }
    }

    /// The human-readable rendering opens with the chunk list exactly when
    /// chunks were returned and there is at least one.
    pub fn shows_chunks(&self) -> (r: bool)
        ensures
            r == (self.chunks matches Some(c) && c@.len() > 0),
    {
        match &self.chunks {
            Some(c) => c.len() > 0,
            None => false,
        }
    }

    /// The human-readable rendering shows the metadata section exactly when
    /// the caller asked for metadata and the reply carried some.
    pub fn shows_metadata(&self, requested_metadata: bool) -> (r: bool)
        ensures
            r == (requested_metadata && self.metadata is Some),
    {
        requested_metadata && self.metadata.is_some()
    }

    /// The note printed under chunk `i`: the chunk's own metadata, where the
    /// reply carries an entry for that chunk.
    pub fn chunk_annotation<'a>(&'a self, i: usize) -> (r: Option<&'a String>)
        ensures
            r is Some <==> (self.chunks_metadata matches Some(v) && i < v@.len()
                && v@[i as int] is Some),
            r matches Some(m) ==> m@ == self.chunks_metadata->0@[i as int]->0@,
    {
        match &self.chunks_metadata {
            Some(v) => {
                if i < v.len() {
                    match &v[i] {
                        Some(m) => Some(m),
                        None => None,
                    }
                } else {
                    None
                }
            },
            None => None,
        }
    }
}

/// The whitespace characters, as Unicode defines the `White_Space` property;
/// words are the maximal runs of everything else.
pub open spec fn is_space(c: char) -> bool {
    ||| c == ' '
    ||| ('\u{9}' <= c && c <= '\u{d}')
    ||| c == '\u{85}'
    ||| c == '\u{a0}'
    ||| c == '\u{1680}'
    ||| ('\u{2000}' <= c && c <= '\u{200a}')
    ||| c == '\u{2028}'
    ||| c == '\u{2029}'
    ||| c == '\u{202f}'
    ||| c == '\u{205f}'
    ||| c == '\u{3000}'
}

/// The number of words in `s` given whether a word was already open to the
/// left: a word is counted at the non-space character that opens it.
pub open spec fn word_count_from(s: Seq<char>, in_word: bool) -> nat
    decreases s.len(),
{
    if s.len() == 0 {
        0
    } else if is_space(s[0]) {
        word_count_from(s.drop_first(), false)
    } else if in_word {
        word_count_from(s.drop_first(), true)
    } else {
        1 + word_count_from(s.drop_first(), true)
    }
}

/// The number of maximal nonempty runs of non-whitespace characters in `s`.
pub open spec fn word_count(s: Seq<char>) -> nat {
    word_count_from(s, false)
}

/// How often `c` occurs in `s`.
pub open spec fn count_char(s: Seq<char>, c: char) -> nat
    decreases s.len(),
{
    if s.len() == 0 {
        0
    } else {
        count_char(s.drop_last(), c) + (if s.last() == c {
            1nat
        } else {
            0nat
        })
    }
}

/// The number of lines of `s`: the newlines, plus the unterminated last line
/// if there is one; empty text has no line.
pub open spec fn line_count(s: Seq<char>) -> nat {
    if s.len() == 0 {
        0
    } else {
        count_char(s, '\n') + (if s.last() == '\n' {
            0nat
        } else {
            1nat
        })
    }
}

fn is_space_char(c: char) -> (r: bool)
    ensures
        r == is_space(c),
{
    c == ' ' || ('\u{9}' <= c && c <= '\u{d}') || c == '\u{85}' || c == '\u{a0}' || c == '\u{1680}'
        || ('\u{2000}' <= c && c <= '\u{200a}') || c == '\u{2028}' || c == '\u{2029}'
        || c == '\u{202f}' || c == '\u{205f}' || c == '\u{3000}'
}

/// The figures shown above the extracted text: characters, words and lines.
#[derive(Debug)]
pub struct TextStats {
    pub chars: usize,
    pub words: usize,
    pub lines: usize,
}

/// Counts characters, words and lines of the extracted text.
pub fn text_stats(text: &str) -> (r: TextStats)
    ensures
        r.chars == text@.len(),
        r.words == word_count(text@),
        r.lines == line_count(text@),
{
    let n = text.unicode_len();
    proof {
        assert(text@.subrange(0, n as int) =~= text@);
    }
    let mut words: usize = 0;
    let mut in_word: bool = false;
    let mut i: usize = 0;
    while i < n
        invariant
            i <= n,
            n == text@.len(),
            words <= i,
            word_count(text@) == words + word_count_from(text@.subrange(i as int, n as int), in_word),
        decreases n - i,
    {
        let c = text.get_char(i);
        proof {
            let rest = text@.subrange(i as int, n as int);
            assert(rest[0] == c);
            assert(rest.drop_first() =~= text@.subrange(i + 1 as int, n as int));
        }
        if is_space_char(c) {
            in_word = false;
        } else {
            if !in_word {
                words = words + 1;
            }
            in_word = true;
        }
        i = i + 1;
    }
    proof {
        assert(text@.subrange(n as int, n as int) =~= Seq::<char>::empty());
    }
    let mut newlines: usize = 0;
    let mut j: usize = 0;
    while j < n
        invariant
            j <= n,
            n == text@.len(),
            newlines <= j,
            newlines == count_char(text@.subrange(0, j as int), '\n'),
        decreases n - j,
    {
        let c = text.get_char(j);
        if c == '\n' {
            newlines = newlines + 1;
        }
        proof {
            assert(text@.subrange(0, j + 1 as int).drop_last() =~= text@.subrange(0, j as int));
            assert(text@.subrange(0, j + 1 as int).last() == c);
        }
        j = j + 1;
    }
    proof {
        assert(text@.subrange(0, n as int) =~= text@);
    }
    let lines: usize = if n == 0 {
        0
    } else if text.get_char(n - 1) == '\n' {
        newlines
    } else {
        proof {
            assert(count_char(text@, '\n') < text@.len()) by {
                assert(text@.last() != '\n');
                lemma_count_char_le_len(text@.drop_last(), '\n');
            };
        }
        newlines + 1
    };
    TextStats { chars: n, words, lines }
}

/// No character occurs more often than the text is long.
proof fn lemma_count_char_le_len(s: Seq<char>, c: char)
    ensures
        count_char(s, c) <= s.len(),
    decreases s.len(),
{
    if s.len() > 0 {
        lemma_count_char_le_len(s.drop_last(), c);
    }
}

} // verus!
