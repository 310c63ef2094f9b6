//! What the client sends: endpoint URLs, the bearer header and its redacted
//! form for diagnostics, and the JSON bodies of the start-upload and
//! start-extraction requests.

use vstd::prelude::*;
use vstd::string::StrSliceExecFns;
use vstd::string::StringExecFns;
use crate::json::comma_joined;
use crate::json::json_quoted;
use crate::json::json_string;
use crate::schema::MetadataSchema;
use crate::schema::MetadataStrategy;
use crate::util::dec_str;
use crate::util::u64_to_dec;

verus! {

/// The API root for one organisation.
pub open spec fn spec_base_url(org_id: Seq<char>) -> Seq<char> {
    "https://api.vectorize.io/v1/org/"@ + org_id
}

/// The API root for one organisation.
pub fn base_url(org_id: &str) -> (r: String)
    ensures
        r@ == spec_base_url(org_id@),
{
    let mut r = String::from_str("https://api.vectorize.io/v1/org/");
    r.append(org_id);
    r
}

/// The endpoint that grants upload slots.
pub fn files_url(org_id: &str) -> (r: String)
    ensures
        r@ == spec_base_url(org_id@) + "/files"@,
{
    let mut r = base_url(org_id);
    r.append("/files");
    proof {
        assert(r@ =~= spec_base_url(org_id@) + "/files"@);
    }
    r
}

/// The endpoint that starts extraction jobs.
pub fn extraction_url(org_id: &str) -> (r: String)
    ensures
        r@ == spec_base_url(org_id@) + "/extraction"@,
{
    let mut r = base_url(org_id);
    r.append("/extraction");
    proof {
        assert(r@ =~= spec_base_url(org_id@) + "/extraction"@);
    }
    r
}

/// The endpoint that reports the state of one extraction job.
pub fn status_url(org_id: &str, extraction_id: &str) -> (r: String)
    ensures
        r@ == spec_base_url(org_id@) + "/extraction/"@ + extraction_id@,
{
    let mut r = base_url(org_id);
    r.append("/extraction/");
    r.append(extraction_id);
    proof {
        assert(r@ =~= spec_base_url(org_id@) + "/extraction/"@ + extraction_id@);
    }
    r
}

/// The value of the authorization header.
pub fn bearer_value(api_token: &str) -> (r: String)
    ensures
        r@ == "Bearer "@ + api_token@,
{
    let mut r = String::from_str("Bearer ");
    r.append(api_token);
    r
}

/// What a diagnostic log may show for one header: the authorization value is
/// replaced by a fixed marker, every other value passes through.
pub fn header_log_value(key: &str, value: &str) -> (r: String)
    ensures
        key@ == "authorization"@ ==> r@ == "Bearer ***REDACTED***"@,
        key@ != "authorization"@ ==> r@ == value@,
{
    if String::from_str(key) == String::from_str("authorization") {
        String::from_str("Bearer ***REDACTED***")
    } else {
        String::from_str(value)
    }
}

/// `true` or `false`, as JSON spells them.
pub open spec fn json_bool(b: bool) -> Seq<char> {
    if b {
        "true"@
    } else {
        "false"@
    }
}

/// The JSON body that requests an upload slot: the file's name and content
/// type.
pub open spec fn spec_upload_request_json(name: Seq<char>, content_type: Seq<char>) -> Seq<char> {
    "{\"name\":"@ + json_quoted(name) + ",\"contentType\":"@ + json_quoted(content_type) + "}"@
}

/// Renders the body of the start-upload request.
pub fn upload_request_body(name: &str, content_type: &str) -> (r: String)
    ensures
        r@ == spec_upload_request_json(name@, content_type@),
{
    let mut r = String::from_str("{\"name\":");
    let q_name = json_string(name);
    r.append(q_name.as_str());
    r.append(",\"contentType\":");
    let q_ct = json_string(content_type);
    r.append(q_ct.as_str());
    r.append("}");
    proof {
        assert(r@ =~= spec_upload_request_json(name@, content_type@));
    }
    r
}

/// The JSON form of one named schema.
pub open spec fn spec_schema_json(ms: MetadataSchema) -> Seq<char> {
    "{\"id\":"@ + json_quoted(ms.id@) + ",\"schema\":"@ + json_quoted(ms.schema@) + "}"@
}

fn schema_json(ms: &MetadataSchema) -> (r: String)
    ensures
        r@ == spec_schema_json(*ms),
{
    let mut r = String::from_str("{\"id\":");
    let q_id = json_string(ms.id.as_str());
    r.append(q_id.as_str());
    r.append(",\"schema\":");
    let q_schema = json_string(ms.schema.as_str());
    r.append(q_schema.as_str());
    r.append("}");
    proof {
        assert(r@ =~= spec_schema_json(*ms));
    }
    r
}

/// The JSON array of the named schemas.
pub open spec fn spec_schemas_json(list: Seq<MetadataSchema>) -> Seq<char> {
    seq!['['] + comma_joined(list.map_values(|m: MetadataSchema| spec_schema_json(m))) + seq![']']
}

fn schemas_json(list: &Vec<MetadataSchema>) -> (r: String)
    ensures
        r@ == spec_schemas_json(list@),
{
    let ghost q: Seq<Seq<char>> = list@.map_values(|m: MetadataSchema| spec_schema_json(m));
    let mut out = String::from_str("[");
    proof {
        reveal_strlit("[");
        assert(out@ =~= seq!['['] + comma_joined(q.subrange(0, 0)));
    }
    let n = list.len();
    let mut i: usize = 0;
    while i < n
        invariant
            i <= n,
            n == list@.len(),
            q == list@.map_values(|m: MetadataSchema| spec_schema_json(m)),
            q.len() == n,
            out@ == seq!['['] + comma_joined(q.subrange(0, i as int)),
        decreases n - i,
    {
        if i > 0 {
            out.push(',');
        }
        let piece = schema_json(&list[i]);
        out.append(piece.as_str());
        proof {
            assert(q[i as int] == spec_schema_json(list@[i as int]));
            assert(q.subrange(0, i + 1 as int).drop_last() =~= q.subrange(0, i as int));
            assert(q.subrange(0, i + 1 as int).last() == q[i as int]);
            assert(out@ =~= seq!['['] + comma_joined(q.subrange(0, i + 1 as int)));
        }
        i = i + 1;
    }
    out.append("]");
    proof {
        reveal_strlit("]");
        assert(q.subrange(0, n as int) =~= q);
        assert(out@ =~= spec_schemas_json(list@));
    }
    out
}

/// The JSON form of the metadata strategy, each absent part omitted.
pub open spec fn spec_strategy_json(st: MetadataStrategy) -> Seq<char> {
    match (st.schemas, st.infer_schema) {
        (None, None) => "{}"@,
        (Some(list), None) => "{\"schemas\":"@ + spec_schemas_json(list@) + "}"@,
        (None, Some(b)) => "{\"inferSchema\":"@ + json_bool(b) + "}"@,
        (Some(list), Some(b)) => "{\"schemas\":"@ + spec_schemas_json(list@) + ",\"inferSchema\":"@
            + json_bool(b) + "}"@,
    }
}

fn strategy_json(st: &MetadataStrategy) -> (r: String)
    ensures
        r@ == spec_strategy_json(*st),
{
    match (&st.schemas, &st.infer_schema) {
        (None, None) => String::from_str("{}"),
        (Some(list), None) => {
            let mut r = String::from_str("{\"schemas\":");
            let arr = schemas_json(list);
            r.append(arr.as_str());
            r.append("}");
            proof {
                assert(r@ =~= spec_strategy_json(*st));
            }
            r
        },
        (None, Some(b)) => {
            let mut r = String::from_str("{\"inferSchema\":");
            if *b {
                r.append("true");
            } else {
                r.append("false");
            }
            r.append("}");
            proof {
                assert(r@ =~= spec_strategy_json(*st));
            }
            r
        },
        (Some(list), Some(b)) => {
            let mut r = String::from_str("{\"schemas\":");
            let arr = schemas_json(list);
            r.append(arr.as_str());
            r.append(",\"inferSchema\":");
            if *b {
                r.append("true");
            } else {
                r.append("false");
            }
            r.append("}");
            proof {
                assert(r@ =~= spec_strategy_json(*st));
            }
            r
        },
    }
}

/// The options of one extraction, fixed before anything is sent.
#[derive(Debug)]
pub struct ExtractionRequest {
    pub file_name: String,
    pub content_type: String,
    pub extraction_type: Option<String>,
    pub chunk_size: Option<u32>,
    pub metadata: Option<MetadataStrategy>,
    pub parsing_instructions: Option<String>,
}

/// The JSON body that starts an extraction: the file's handle and the chosen
/// options, each absent option omitted.
pub open spec fn spec_extraction_request_json(req: ExtractionRequest, file_id: Seq<char>) -> Seq<
    char,
> {
    "{\"fileId\":"@ + json_quoted(file_id) + (match req.extraction_type {
        Some(t) => ",\"type\":"@ + json_quoted(t@),
        None => Seq::<char>::empty(),
    }) + (match req.chunk_size {
        Some(c) => ",\"chunkSize\":"@ + dec_str(c as nat),
        None => Seq::<char>::empty(),
    }) + (match req.metadata {
        Some(m) => ",\"metadata\":"@ + spec_strategy_json(m),
        None => Seq::<char>::empty(),
    }) + (match req.parsing_instructions {
        Some(p) => ",\"parsingInstructions\":"@ + json_quoted(p@),
        None => Seq::<char>::empty(),
    }) + "}"@
}

impl ExtractionRequest {
    /// Renders the body of the start-upload request for this extraction.
    pub fn upload_body(&self) -> (r: String)
        ensures
            r@ == spec_upload_request_json(self.file_name@, self.content_type@),
    {
        upload_request_body(self.file_name.as_str(), self.content_type.as_str())
    }

    /// Renders the body of the start-extraction request, given the handle the
    /// upload slot granted.
    pub fn extraction_body(&self, file_id: &str) -> (r: String)
        ensures
            r@ == spec_extraction_request_json(*self, file_id@),
    {
        let mut out = String::from_str("{\"fileId\":");
        let q_id = json_string(file_id);
        out.append(q_id.as_str());
        let ghost g0: Seq<char> = "{\"fileId\":"@ + json_quoted(file_id@);
        proof {
            assert(out@ =~= g0);
        }
        match &self.extraction_type {
            Some(t) => {
                out.append(",\"type\":");
                let q = json_string(t.as_str());
                out.append(q.as_str());
            },
            None => {},
        }
        let ghost g1: Seq<char> = g0 + (match &self.extraction_type {
            Some(t) => ",\"type\":"@ + json_quoted(t@),
            None => Seq::<char>::empty(),
        });
        proof {
            assert(out@ =~= g1);
        }
        match &self.chunk_size {
            Some(c) => {
                out.append(",\"chunkSize\":");
                let num = u64_to_dec(*c as u64);
                out.append(num.as_str());
            },
            None => {},
        }
        let ghost g2: Seq<char> = g1 + (match &self.chunk_size {
            Some(c) => ",\"chunkSize\":"@ + dec_str(*c as nat),
            None => Seq::<char>::empty(),
        });
        proof {
            assert(out@ =~= g2);
        }
        match &self.metadata {
            Some(m) => {
                out.append(",\"metadata\":");
                let body = strategy_json(m);
                out.append(body.as_str());
            },
            None => {},
        }
        let ghost g3: Seq<char> = g2 + (match &self.metadata {
            Some(m) => ",\"metadata\":"@ + spec_strategy_json(*m),
            None => Seq::<char>::empty(),
        });
        proof {
            assert(out@ =~= g3);
        }
        match &self.parsing_instructions {
            Some(p) => {
                out.append(",\"parsingInstructions\":");
                let q = json_string(p.as_str());
                out.append(q.as_str());
            },
            None => {},
        }
        let ghost g4: Seq<char> = g3 + (match &self.parsing_instructions {
            Some(p) => ",\"parsingInstructions\":"@ + json_quoted(p@),
            None => Seq::<char>::empty(),
        });
        proof {
            assert(out@ =~= g4);
        }
        out.append("}");
        proof {
            assert(out@ =~= g4 + "}"@);
            assert(g4 + "}"@ =~= spec_extraction_request_json(*self, file_id@));
        }
        out
    }
}

} // verus!
