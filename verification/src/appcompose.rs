//! App-compose expectations: the defaulted merge and the logged-digest check.
//!
//! The app-compose document describes the confidential workload; its
//! canonical SHA-256 is committed to the event log. A user policy states
//! only the fields it cares about: missing top-level fields inherit from a
//! fixed base object (the defaults below), user-set fields override.

use vstd::prelude::*;

use crate::digest::{sha256, sha256_of};
use crate::errors::AtlsVerificationError;
use crate::eventlog::{find_event, find_event_spec, log_view, EventLogEntry, EventLogEntryV};
use crate::hexutil::bytes_eq;
use crate::json::{json_bytes, jv_eq, to_json_bytes, JsonSpec, JsonVal};

verus! {

/// The view of an object's field list.
pub open spec fn fields_view(fields: Seq<(String, JsonVal)>) -> Seq<(Seq<char>, JsonSpec)> {
    Seq::new(
        fields.len(),
        |i: int|
            if 0 <= i < fields.len() {
                (fields[i].0@, fields[i].1.deep())
            } else {
                (Seq::empty(), JsonSpec::Null)
            },
    )
}

/// A key occurs among the fields.
pub open spec fn has_key(fields: Seq<(Seq<char>, JsonSpec)>, key: Seq<char>) -> bool {
    exists|i: int| 0 <= i < fields.len() && (#[trigger] fields[i]).0 == key
}

/// The fixed base object that user app-compose policies inherit from.
pub open spec fn default_app_compose_spec() -> Seq<(Seq<char>, JsonSpec)> {
    seq![
        ("manifest_version"@, JsonSpec::Int(2)),
        ("runner"@, JsonSpec::Str("docker-compose"@)),
        ("docker_compose_file"@, JsonSpec::Str(""@)),
        ("kms_enabled"@, JsonSpec::Bool(false)),
        ("gateway_enabled"@, JsonSpec::Bool(false)),
        ("public_logs"@, JsonSpec::Bool(false)),
        ("public_sysinfo"@, JsonSpec::Bool(false)),
    ]
}

/// User fields, followed by each default whose key the user did not set.
pub open spec fn add_defaults(
    fs: Seq<(Seq<char>, JsonSpec)>,
    ds: Seq<(Seq<char>, JsonSpec)>,
) -> Seq<(Seq<char>, JsonSpec)>
    decreases ds.len(),
{
    if ds.len() == 0 {
        fs
    } else {
        add_defaults(fs, ds.drop_last()) + (if has_key(fs, ds.last().0) {
            Seq::empty()
        } else {
            seq![ds.last()]
        })
    }
}

/// The defaulted merge: objects inherit missing top-level defaults; any
/// other value is left as it is.
pub open spec fn merge_app_compose_spec(u: JsonSpec) -> JsonSpec {
    match u {
        JsonSpec::Obj(fs) => JsonSpec::Obj(add_defaults(fs, default_app_compose_spec())),
        _ => u,
    }
}

/// Appending defaults never disturbs the user's fields.
proof fn lemma_add_defaults_prefix(fs: Seq<(Seq<char>, JsonSpec)>, ds: Seq<(Seq<char>, JsonSpec)>)
    ensures
        add_defaults(fs, ds).len() >= fs.len(),
        add_defaults(fs, ds).subrange(0, fs.len() as int) =~= fs,
    decreases ds.len(),
{
    if ds.len() > 0 {
        lemma_add_defaults_prefix(fs, ds.drop_last());
    }
}

fn default_app_compose_fields() -> (r: Vec<(String, JsonVal)>)
    ensures
        fields_view(r@) =~= default_app_compose_spec(),
{
    let mut v: Vec<(String, JsonVal)> = Vec::new();
    v.push(("manifest_version".to_owned(), JsonVal::Int(2)));
    v.push(("runner".to_owned(), JsonVal::Str("docker-compose".to_owned())));
    v.push(("docker_compose_file".to_owned(), JsonVal::Str("".to_owned())));
    v.push(("kms_enabled".to_owned(), JsonVal::Bool(false)));
    v.push(("gateway_enabled".to_owned(), JsonVal::Bool(false)));
    v.push(("public_logs".to_owned(), JsonVal::Bool(false)));
    v.push(("public_sysinfo".to_owned(), JsonVal::Bool(false)));
    v
}

fn fields_have_key_upto(fields: &Vec<(String, JsonVal)>, n: usize, key: &String) -> (r: bool)
    requires
        n <= fields@.len(),
    ensures
        r == has_key(fields_view(fields@).subrange(0, n as int), key@),
{
    let ghost prefix = fields_view(fields@).subrange(0, n as int);
    let mut i: usize = 0;
    while i < n
        invariant
            i <= n,
            n <= fields@.len(),
            prefix == fields_view(fields@).subrange(0, n as int),
            forall|j: int| 0 <= j < i ==> (#[trigger] prefix[j]).0 != key@,
        decreases n - i,
    {
        if crate::strutil::str_eq(fields[i].0.as_str(), key.as_str()) {
            proof {
                assert(prefix[i as int].0 == key@);
            }
            return true;
        }
        i = i + 1;
    }
    false
}

/// Merge a user app-compose document with the built-in defaults: the user's
/// fields stand, and each default whose key is absent is appended.
pub fn merge_with_default_app_compose(user: JsonVal) -> (r: JsonVal)
    ensures
        r.deep() == merge_app_compose_spec(user.deep()),
{
    let mut fields = match user {
        JsonVal::Obj(fields) => fields,
        other => {
            return other;
        },
    };
    let ghost orig = fields_view(fields@);
    let ghost dspec = default_app_compose_spec();
    proof {
        assert(JsonVal::Obj(fields).deep()->Obj_0 =~= orig);
        assert(add_defaults(orig, dspec.subrange(0, 0)) =~= orig);
        assert(dspec.len() == 7);
    }
    let base_len = fields.len();
    let mut defaults = default_app_compose_fields();
    let mut k: usize = 0;
    while defaults.len() > 0
        invariant
            dspec == default_app_compose_spec(),
            dspec.len() == 7,
            k + defaults@.len() == dspec.len(),
            k <= dspec.len(),
            base_len == orig.len(),
            forall|j: int| 0 <= j < defaults@.len() ==> #[trigger] fields_view(defaults@)[j]
                == dspec[k + j],
            fields_view(fields@) =~= add_defaults(orig, dspec.subrange(0, k as int)),
        decreases defaults@.len(),
    {
        let ghost dv = defaults@;
        proof {
            assert(fields_view(dv)[0] == dspec[k as int]);
        }
        let d = defaults.remove(0);
        proof {
            assert(d == dv[0]);
            assert((d.0@, d.1.deep()) == dspec[k as int]);
            assert(k < dspec.len());
            lemma_add_defaults_prefix(orig, dspec.subrange(0, k as int));
            assert(fields_view(fields@).subrange(0, base_len as int) =~= orig);
        }
        if !fields_have_key_upto(&fields, base_len, &d.0) {
            fields.push(d);
        }
        k = k + 1;
        proof {
            let pre = dspec.subrange(0, k - 1);
            let now = dspec.subrange(0, k as int);
            assert(now.drop_last() =~= pre);
            assert(now.last() == dspec[k - 1]);
            assert(fields_view(fields@) =~= add_defaults(orig, now));
            assert forall|j: int|
                0 <= j < defaults@.len() implies #[trigger] fields_view(defaults@)[j] == dspec[k
                + j] by {
                assert(defaults@ =~= dv.drop_first());
                assert(fields_view(defaults@)[j] == (dv[j + 1].0@, dv[j + 1].1.deep()));
                assert(fields_view(dv)[j + 1] == dspec[k + j]);
            }
        }
    }
    proof {
        assert(dspec.subrange(0, dspec.len() as int) =~= dspec);
        assert(JsonVal::Obj(fields).deep()->Obj_0 =~= fields_view(fields@));
    }
    JsonVal::Obj(fields)
}

/// The log commits to this document, and the document equals the (already
/// merged) expectation.
pub open spec fn app_compose_ok(
    log: Seq<EventLogEntryV>,
    doc: JsonSpec,
    expected_merged: JsonSpec,
) -> bool {
    &&& find_event_spec(log, "app-compose"@) matches Some(e) && e.event_payload == sha256_of(
        json_bytes(doc),
    )
    &&& doc == expected_merged
}

/// Check the delivered app-compose document against the event log and the
/// policy's (defaulted) expectation.
///
/// Succeeds exactly when the log's `app-compose` event payload is the
/// SHA-256 of the document's canonical JSON text and the document equals the
/// expectation; anything else is `AppComposeMismatch`.
pub fn check_app_compose(
    log: &Vec<EventLogEntry>,
    doc: &JsonVal,
    expected_merged: &JsonVal,
) -> (r: Result<(), AtlsVerificationError>)
    ensures
        r is Ok <==> app_compose_ok(log_view(log@), doc.deep(), expected_merged.deep()),
        r is Err ==> r matches Err(AtlsVerificationError::AppComposeMismatch { .. }),
{
    let canonical = to_json_bytes(doc);
    let digest = sha256(&canonical);
    let entry = match find_event(log, "app-compose") {
        Some(e) => e,
        None => {
            return Err(
                AtlsVerificationError::AppComposeMismatch {
                    expected: crate::strutil::hex_string(&digest),
                    actual: String::new(),
                },
            );
        },
    };
    if !bytes_eq(&entry.event_payload, &digest) {
        return Err(
            AtlsVerificationError::AppComposeMismatch {
                expected: crate::strutil::hex_string(&digest),
                actual: crate::strutil::hex_string(&entry.event_payload),
            },
        );
    }
    if !jv_eq(doc, expected_merged) {
        return Err(
            AtlsVerificationError::AppComposeMismatch {
                expected: String::new(),
                actual: crate::strutil::hex_string(&digest),
            },
        );
    }
    Ok(())
}

} // verus!
