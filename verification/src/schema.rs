//! Metadata-schema arguments: parsing `ID:JSON` pairs and choosing the
//! metadata strategy of an extraction request.
//!
//! An argument is split at its first colon. The part after the colon must be
//! valid JSON; it is stored in canonical form, wrapped under a `"document"`
//! key unless its top level already is an object with such a member.
//! Supplying any explicit schema forces automatic schema inference off.

use vstd::prelude::*;
use vstd::string::StrSliceExecFns;
use vstd::string::StringExecFns;
use crate::errors::ExtractError;

verus! {

/// One named schema, ready to be sent: the identifier and the schema's JSON
/// text in canonical form, wrapped under a `"document"` key.
#[derive(Debug)]
pub struct MetadataSchema {
    pub id: String,
    pub schema: String,
}

/// The metadata part of an extraction request: explicit schemas, automatic
/// inference, or both switched off.
#[derive(Debug)]
pub struct MetadataStrategy {
    pub schemas: Option<Vec<MetadataSchema>>,
    pub infer_schema: Option<bool>,
}

/// The canonical (compact) JSON rendering of the value that `s` denotes, or
/// nothing when `s` is not valid JSON.
pub uninterp spec fn json_canon(s: Seq<char>) -> Option<Seq<char>>;

/// Whether `s` is valid JSON whose top level is an object with a `"document"`
/// member.
pub uninterp spec fn json_doc_wrapped(s: Seq<char>) -> bool;

/// Relies on `serde_json::from_str::<Value>`, which accepts exactly the valid
/// JSON texts, and on the `Display` impl of `serde_json::Value`, which renders
/// the parsed value as compact JSON. Both results depend on the text alone.
#[verifier::external_body]
fn json_canonical(s: &str) -> (r: Option<String>)
    ensures
        r is Some <==> json_canon(s@) is Some,
        r is Some ==> r->0@ == json_canon(s@)->0,
{
    match serde_json::from_str::<serde_json::Value>(s) {
        Ok(v) => Some(v.to_string()),
        Err(_) => None,
    }
}

/// Relies on `serde_json::from_str::<Value>`, `Value::is_object` and
/// `Value::get`: whether the text is valid JSON whose top level is an object
/// with a `"document"` member. All three results depend on the text alone.
#[verifier::external_body]
fn json_is_document_wrapped(s: &str) -> (r: bool)
    ensures
        r == json_doc_wrapped(s@),
{
    match serde_json::from_str::<serde_json::Value>(s) {
        Ok(v) => v.is_object() && v.get("document").is_some(),
        Err(_) => false,
    }
}

/// `i` is the index of the first colon of `s`.
pub open spec fn is_first_colon(s: Seq<char>, i: int) -> bool {
    0 <= i < s.len() && s[i] == ':' && (forall|j: int| 0 <= j < i ==> s[j] != ':')
}

/// `s` holds no colon at all.
pub open spec fn has_no_colon(s: Seq<char>) -> bool {
    forall|j: int| 0 <= j < s.len() ==> s[j] != ':'
}

/// The identifier part of an `ID:JSON` argument split at colon `i`.
pub open spec fn schema_id_of(s: Seq<char>, i: int) -> Seq<char> {
    s.subrange(0, i)
}

/// The JSON part of an `ID:JSON` argument split at colon `i`.
pub open spec fn schema_value_of(s: Seq<char>, i: int) -> Seq<char> {
    s.subrange(i + 1, s.len() as int)
}

/// What is stored for a valid JSON value text: its canonical form, wrapped
/// under a `"document"` key unless it is already wrapped.
pub open spec fn wrapped_schema(value: Seq<char>) -> Seq<char> {
    if json_doc_wrapped(value) {
        json_canon(value)->0
    } else {
        "{\"document\":"@ + json_canon(value)->0 + "}"@
    }
}

/// A valid `ID:JSON` argument whose JSON is not already wrapped is stored as
/// exactly the canonical JSON of `{"document": <JSON>}`; an already wrapped
/// one is passed through unchanged, in canonical form.
pub proof fn lemma_schema_document_wrapping(value: Seq<char>)
    requires
        json_canon(value) is Some,
    ensures
        !json_doc_wrapped(value) ==> wrapped_schema(value) == "{\"document\":"@ + json_canon(
            value,
        )->0 + "}"@,
        json_doc_wrapped(value) ==> wrapped_schema(value) == json_canon(value)->0,
{
}

/// An argument parses when it has a colon and the part after the first colon
/// is valid JSON.
pub open spec fn spec_schema_ok(s: Seq<char>) -> bool {
    exists|i: int| #[trigger] is_first_colon(s, i) && json_canon(schema_value_of(s, i)) is Some
}

/// `ms` is what parsing the argument `s` yields.
pub open spec fn spec_schema_of(s: Seq<char>, ms: MetadataSchema) -> bool {
    exists|i: int|
        #[trigger] is_first_colon(s, i) && json_canon(schema_value_of(s, i)) is Some && ms.id@
            == schema_id_of(s, i) && ms.schema@ == wrapped_schema(schema_value_of(s, i))
}

/// `e` is the error that the argument `s` earns: the whole argument echoed
/// when it has no colon, the identifier and the offending value when the part
/// after the first colon is not valid JSON.
pub open spec fn spec_schema_err(s: Seq<char>, e: ExtractError) -> bool {
    match e {
        ExtractError::InvalidMetadataSchema { input } => input@ == s && has_no_colon(s),
        ExtractError::InvalidMetadataSchemaJson { id, value } => exists|i: int|
            #[trigger] is_first_colon(s, i) && json_canon(schema_value_of(s, i)) is None && id@
                == schema_id_of(s, i) && value@ == schema_value_of(s, i),
        _ => false,
    }
}

/// Splits one `ID:JSON` argument and validates its JSON part.
///
/// The argument is split at its first colon; the identifier may be empty. The
/// part after the colon must be valid JSON; the stored schema is its
/// canonical form, wrapped under a `"document"` key unless already wrapped.
pub fn parse_metadata_schema(s: &str) -> (r: Result<MetadataSchema, ExtractError>)
    ensures
        match r {
            Ok(ms) => spec_schema_of(s@, ms),
            Err(e) => spec_schema_err(s@, e),
        },
        r is Ok <==> spec_schema_ok(s@),
{
    let n = s.unicode_len();
    let mut i: usize = 0;
    loop
        invariant_except_break
            i <= n,
            n == s@.len(),
            forall|j: int| 0 <= j < i ==> s@[j] != ':',
        ensures
            (i < n && is_first_colon(s@, i as int)) || (i == n && has_no_colon(s@)),
        decreases n - i,
    {
        if i >= n {
            break ;
        }
        if s.get_char(i) == ':' {
            break ;
        }
        i = i + 1;
    }
    if i == n {
        return Err(ExtractError::InvalidMetadataSchema { input: String::from_str(s) });
    }
    let id = s.substring_char(0, i);
    let value = s.substring_char(i + 1, n);
    proof {
        assert(id@ == schema_id_of(s@, i as int));
        assert(value@ == schema_value_of(s@, i as int));
    }
    match json_canonical(value) {
        None => Err(
            ExtractError::InvalidMetadataSchemaJson {
                id: String::from_str(id),
                value: String::from_str(value),
            },
        ),
        Some(canon) => {
            let schema = if json_is_document_wrapped(value) {
                canon
            } else {
                let mut w = String::from_str("{\"document\":");
                w.append(canon.as_str());
                w.append("}");
                proof {
                    assert(w@ =~= "{\"document\":"@ + json_canon(value@)->0 + "}"@);
                }
                w
            };
            Ok(MetadataSchema { id: String::from_str(id), schema })
        },
    }
}

/// Every argument of `args` parses.
pub open spec fn spec_all_schemas_ok(args: Seq<Seq<char>>) -> bool {
    forall|k: int| 0 <= k < args.len() ==> #[trigger] spec_schema_ok(args[k])
}

/// Decides the metadata strategy of a request from the `ID:JSON` arguments
/// and the inference flag.
///
/// With no argument, the strategy asks for inference when the flag is set and
/// is absent otherwise. With arguments, every one must parse; the strategy
/// then carries them and switches inference off, whatever the flag says. The
/// first argument that does not parse is reported.
pub fn plan_metadata(args: &Vec<String>, infer_flag: bool) -> (r: Result<
    Option<MetadataStrategy>,
    ExtractError,
>)
    ensures
        r is Ok <==> spec_all_schemas_ok(args.deep_view()),
        args@.len() == 0 ==> r is Ok && (infer_flag ==> (r->Ok_0 matches Some(st)
            && st.schemas is None && st.infer_schema == Some(true))) && (!infer_flag
            ==> r->Ok_0 is None),
        args@.len() > 0 && r is Ok ==> (r->Ok_0 matches Some(st) && st.infer_schema == Some(false)
            && (st.schemas matches Some(list) && list@.len() == args@.len() && (forall|k: int|
            0 <= k < args@.len() ==> #[trigger] spec_schema_of(args@[k]@, list@[k])))),
        r matches Err(e) ==> exists|k: int|
            0 <= k < args@.len() && !#[trigger] spec_schema_ok(args@[k]@) && spec_schema_err(
                args@[k]@,
                e,
            ) && (forall|j: int| 0 <= j < k ==> #[trigger] spec_schema_ok(args@[j]@)),
{
    if args.len() == 0 {
        if infer_flag {
            return Ok(Some(MetadataStrategy { schemas: None, infer_schema: Some(true) }));
        } else {
            return Ok(None);
        }
    }
    let mut parsed: Vec<MetadataSchema> = Vec::new();
    let n = args.len();
    let mut k: usize = 0;
    while k < n
        invariant
            k <= n,
            n == args@.len(),
            parsed@.len() == k as int,
            forall|j: int| 0 <= j < k ==> #[trigger] spec_schema_of(args@[j]@, parsed@[j]),
            forall|j: int| 0 <= j < k ==> #[trigger] spec_schema_ok(args@[j]@),
        decreases n - k,
    {
        match parse_metadata_schema(args[k].as_str()) {
            Ok(ms) => {
                parsed.push(ms);
            },
            Err(e) => {
                proof {
                    assert(args.deep_view()[k as int] == args@[k as int]@);
                    assert(!spec_all_schemas_ok(args.deep_view()));
                }
                return Err(e);
            },
        }
        k = k + 1;
    }
    proof {
        assert(forall|j: int| 0 <= j < args.deep_view().len() ==> args.deep_view()[j]
            == args@[j]@);
    }
    Ok(Some(MetadataStrategy { schemas: Some(parsed), infer_schema: Some(false) }))
}

/// Whether the request carries a metadata section at all: it does exactly
/// when explicit schemas were given or inference is on.
pub fn wants_metadata(schema_count: usize, infer_flag: bool) -> (r: bool)
    ensures
        r == (schema_count > 0 || infer_flag),
{
    schema_count > 0 || infer_flag
}

} // verus!
