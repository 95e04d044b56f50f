//! The policy JSON wire format.
//!
//! A policy travels as a tagged JSON document. The encoder always writes
//! every field, with `null` for absent options; the decoder accepts missing
//! fields (applying the documented defaults) and rejects unknown ones.
//! Decoding the encoding of any well-formed policy gives the policy back;
//! see `lemma_policy_round_trip`.

use vstd::prelude::*;

use crate::errors::AtlsVerificationError;
use crate::hexutil::{hex_chars_of, hex_decode_bytes, hex_decoded, is_hex_text};
use crate::json::{obj_get, json_obj_get, jv_clone, JsonSpec, JsonVal};
use crate::policy::{
    default_allowed_tcb_status, default_pccs_url, DstackTdxPolicy, ExpectedBootchain, Policy,
    DEFAULT_PCCS_URL,
};
use crate::strutil::{chars_as_bytes, hex_string, str_eq};

verus! {

pub ghost struct BootchainV {
    pub mrtd: Seq<u8>,
    pub rtmr0: Seq<u8>,
    pub rtmr1: Seq<u8>,
    pub rtmr2: Seq<u8>,
}

pub ghost struct DstackTdxPolicyV {
    pub expected_bootchain: Option<BootchainV>,
    pub app_compose: Option<JsonSpec>,
    pub os_image_hash: Option<Seq<char>>,
    pub allowed_tcb_status: Seq<Seq<char>>,
    pub pccs_url: Option<Seq<char>>,
    pub cache_collateral: bool,
    pub disable_runtime_verification: bool,
    pub grace_period_secs: Option<u64>,
}

impl View for ExpectedBootchain {
    type V = BootchainV;

    open spec fn view(&self) -> BootchainV {
        BootchainV {
            mrtd: self.mrtd@,
            rtmr0: self.rtmr0@,
            rtmr1: self.rtmr1@,
            rtmr2: self.rtmr2@,
        }
    }
}

/// The views of a vector of strings.
pub open spec fn str_views(v: Seq<String>) -> Seq<Seq<char>> {
    Seq::new(v.len(), |i: int| v[i]@)
}

impl View for DstackTdxPolicy {
    type V = DstackTdxPolicyV;

    open spec fn view(&self) -> DstackTdxPolicyV {
        DstackTdxPolicyV {
            expected_bootchain: match self.expected_bootchain {
                Some(b) => Some(b@),
                None => None,
            },
            app_compose: match self.app_compose {
                Some(d) => Some(d.deep()),
                None => None,
            },
            os_image_hash: match self.os_image_hash {
                Some(s) => Some(s@),
                None => None,
            },
            allowed_tcb_status: str_views(self.allowed_tcb_status@),
            pccs_url: match self.pccs_url {
                Some(s) => Some(s@),
                None => None,
            },
            cache_collateral: self.cache_collateral,
            disable_runtime_verification: self.disable_runtime_verification,
            grace_period_secs: self.grace_period_secs,
        }
    }
}

/// The JSON shape of a boot-chain expectation: four hex digests.
pub open spec fn encode_bootchain_spec(b: BootchainV) -> JsonSpec {
    JsonSpec::Obj(
        seq![
            ("mrtd"@, JsonSpec::Str(hex_chars_of(b.mrtd))),
            ("rtmr0"@, JsonSpec::Str(hex_chars_of(b.rtmr0))),
            ("rtmr1"@, JsonSpec::Str(hex_chars_of(b.rtmr1))),
            ("rtmr2"@, JsonSpec::Str(hex_chars_of(b.rtmr2))),
        ],
    )
}

/// The fields of an encoded policy, in canonical order.
pub open spec fn encode_policy_fields(p: DstackTdxPolicyV) -> Seq<(Seq<char>, JsonSpec)> {
    seq![
        ("type"@, JsonSpec::Str("dstack_tdx"@)),
        (
            "expected_bootchain"@,
            match p.expected_bootchain {
                Some(b) => encode_bootchain_spec(b),
                None => JsonSpec::Null,
            },
        ),
        (
            "app_compose"@,
            match p.app_compose {
                Some(d) => d,
                None => JsonSpec::Null,
            },
        ),
        (
            "os_image_hash"@,
            match p.os_image_hash {
                Some(s) => JsonSpec::Str(s),
                None => JsonSpec::Null,
            },
        ),
        (
            "allowed_tcb_status"@,
            JsonSpec::Arr(
                Seq::new(
                    p.allowed_tcb_status.len(),
                    |i: int| JsonSpec::Str(p.allowed_tcb_status[i]),
                ),
            ),
        ),
        (
            "pccs_url"@,
            match p.pccs_url {
                Some(s) => JsonSpec::Str(s),
                None => JsonSpec::Null,
            },
        ),
        ("cache_collateral"@, JsonSpec::Bool(p.cache_collateral)),
        ("disable_runtime_verification"@, JsonSpec::Bool(p.disable_runtime_verification)),
        (
            "grace_period_secs"@,
            match p.grace_period_secs {
                Some(g) => JsonSpec::Int(g as int),
                None => JsonSpec::Null,
            },
        ),
    ]
}

/// The JSON shape of an encoded policy.
pub open spec fn encode_policy_spec(p: DstackTdxPolicyV) -> JsonSpec {
    JsonSpec::Obj(encode_policy_fields(p))
}

fn bootchain_to_json(b: &ExpectedBootchain) -> (r: JsonVal)
    ensures
        r.deep() == encode_bootchain_spec(b@),
{
    let mut fields: Vec<(String, JsonVal)> = Vec::new();
    fields.push(("mrtd".to_owned(), JsonVal::Str(hex_string(&b.mrtd))));
    fields.push(("rtmr0".to_owned(), JsonVal::Str(hex_string(&b.rtmr0))));
    fields.push(("rtmr1".to_owned(), JsonVal::Str(hex_string(&b.rtmr1))));
    fields.push(("rtmr2".to_owned(), JsonVal::Str(hex_string(&b.rtmr2))));
    let r = JsonVal::Obj(fields);
    proof {
        reveal_with_fuel(JsonVal::deep, 3);
        assert(r.deep()->Obj_0 =~= encode_bootchain_spec(b@)->Obj_0);
    }
    r
}

/// Encode a policy configuration as its JSON document.
pub fn dstack_policy_to_json(p: &DstackTdxPolicy) -> (r: JsonVal)
    ensures
        r.deep() == encode_policy_spec(p@),
{
    let mut fields: Vec<(String, JsonVal)> = Vec::new();
    fields.push(("type".to_owned(), JsonVal::Str("dstack_tdx".to_owned())));
    fields.push(
        (
            "expected_bootchain".to_owned(),
            match &p.expected_bootchain {
                Some(b) => bootchain_to_json(b),
                None => JsonVal::Null,
            },
        ),
    );
    fields.push(
        (
            "app_compose".to_owned(),
            match &p.app_compose {
                Some(d) => jv_clone(d),
                None => JsonVal::Null,
            },
        ),
    );
    fields.push(
        (
            "os_image_hash".to_owned(),
            match &p.os_image_hash {
                Some(s) => JsonVal::Str(s.clone()),
                None => JsonVal::Null,
            },
        ),
    );
    let mut statuses: Vec<JsonVal> = Vec::new();
    let mut i: usize = 0;
    while i < p.allowed_tcb_status.len()
        invariant
            i <= p.allowed_tcb_status@.len(),
            statuses@.len() == i,
            forall|j: int|
                0 <= j < i ==> (#[trigger] statuses@[j]).deep() == JsonSpec::Str(
                    p.allowed_tcb_status@[j]@,
                ),
        decreases p.allowed_tcb_status@.len() - i,
    {
        statuses.push(JsonVal::Str(p.allowed_tcb_status[i].clone()));
        i = i + 1;
    }
    fields.push(("allowed_tcb_status".to_owned(), JsonVal::Arr(statuses)));
    fields.push(
        (
            "pccs_url".to_owned(),
            match &p.pccs_url {
                Some(s) => JsonVal::Str(s.clone()),
                None => JsonVal::Null,
            },
        ),
    );
    fields.push(("cache_collateral".to_owned(), JsonVal::Bool(p.cache_collateral)));
    fields.push(
        ("disable_runtime_verification".to_owned(), JsonVal::Bool(p.disable_runtime_verification)),
    );
    fields.push(
        (
            "grace_period_secs".to_owned(),
            match p.grace_period_secs {
                Some(g) => JsonVal::Int(g as i128),
                None => JsonVal::Null,
            },
        ),
    );
    let r = JsonVal::Obj(fields);
    proof {
        reveal_with_fuel(JsonVal::deep, 3);
        let want = encode_policy_fields(p@);
        let have = r.deep()->Obj_0;
        assert(have[4].1->Arr_0 =~= want[4].1->Arr_0);
        assert(have =~= want);
    }
    r
}

/// Encode a policy as its JSON document.
pub fn policy_to_json(p: &Policy) -> (r: JsonVal)
    ensures
        p matches Policy::DstackTdx(t) ==> r.deep() == encode_policy_spec(t@),
{
    match p {
        Policy::DstackTdx(t) => dstack_policy_to_json(t),
    }
}

/// The keys a policy document may carry.
pub open spec fn known_policy_key(k: Seq<char>) -> bool {
    ||| k == "type"@
    ||| k == "expected_bootchain"@
    ||| k == "app_compose"@
    ||| k == "os_image_hash"@
    ||| k == "allowed_tcb_status"@
    ||| k == "pccs_url"@
    ||| k == "cache_collateral"@
    ||| k == "disable_runtime_verification"@
    ||| k == "grace_period_secs"@
}

/// The keys a boot-chain document may carry.
pub open spec fn known_bootchain_key(k: Seq<char>) -> bool {
    ||| k == "mrtd"@
    ||| k == "rtmr0"@
    ||| k == "rtmr1"@
    ||| k == "rtmr2"@
}

/// A 48-byte digest, decoded from ASCII hex text.
pub open spec fn decode_hex48_spec(j: JsonSpec) -> Option<Seq<u8>> {
    match j {
        JsonSpec::Str(s) => {
            if vstd::utf8::is_ascii_chars(s) && is_hex_text(chars_as_bytes(s)) && s.len() == 96 {
                Some(hex_decoded(chars_as_bytes(s)))
            } else {
                None
            }
        },
        _ => None,
    }
}

/// A boot-chain expectation: `null`, or an object of exactly the four
/// registers as 96-character hex digests.
pub open spec fn decode_bootchain_spec(j: JsonSpec) -> Option<Option<BootchainV>> {
    match j {
        JsonSpec::Null => Some(None),
        JsonSpec::Obj(fs) => {
            if !(forall|i: int| 0 <= i < fs.len() ==> known_bootchain_key((#[trigger] fs[i]).0)) {
                None
            } else {
                let mrtd = match obj_get(fs, "mrtd"@) {
                    Some(x) => decode_hex48_spec(x),
                    None => None,
                };
                let rtmr0 = match obj_get(fs, "rtmr0"@) {
                    Some(x) => decode_hex48_spec(x),
                    None => None,
                };
                let rtmr1 = match obj_get(fs, "rtmr1"@) {
                    Some(x) => decode_hex48_spec(x),
                    None => None,
                };
                let rtmr2 = match obj_get(fs, "rtmr2"@) {
                    Some(x) => decode_hex48_spec(x),
                    None => None,
                };
                if mrtd is Some && rtmr0 is Some && rtmr1 is Some && rtmr2 is Some {
                    Some(
                        Some(
                            BootchainV {
                                mrtd: mrtd->Some_0,
                                rtmr0: rtmr0->Some_0,
                                rtmr1: rtmr1->Some_0,
                                rtmr2: rtmr2->Some_0,
                            },
                        ),
                    )
                } else {
                    None
                }
            }
        },
        _ => None,
    }
}

/// An optional string field: `null` or a string.
pub open spec fn decode_opt_string_spec(j: JsonSpec) -> Option<Option<Seq<char>>> {
    match j {
        JsonSpec::Null => Some(None),
        JsonSpec::Str(s) => Some(Some(s)),
        _ => None,
    }
}

/// The allow-set: an array of strings.
pub open spec fn decode_statuses_spec(j: JsonSpec) -> Option<Seq<Seq<char>>> {
    match j {
        JsonSpec::Arr(items) => {
            if forall|i: int| 0 <= i < items.len() ==> (#[trigger] items[i]) is Str {
                Some(Seq::new(items.len(), |i: int| items[i]->Str_0))
            } else {
                None
            }
        },
        _ => None,
    }
}

/// The grace period: `null` or an unsigned 64-bit count of seconds.
pub open spec fn decode_grace_spec(j: JsonSpec) -> Option<Option<u64>> {
    match j {
        JsonSpec::Null => Some(None),
        JsonSpec::Int(n) => if 0 <= n <= u64::MAX {
            Some(Some(n as u64))
        } else {
            None
        },
        _ => None,
    }
}

/// A boolean field.
pub open spec fn decode_bool_spec(j: JsonSpec) -> Option<bool> {
    match j {
        JsonSpec::Bool(b) => Some(b),
        _ => None,
    }
}

/// What decoding a policy document means: an object of known keys tagged
/// `dstack_tdx`, each field decoded as above, absent fields defaulted
/// (allow-set `["UpToDate"]`, the default PCCS URL, `false` for the
/// booleans, absent options).
pub open spec fn decode_policy_spec(v: JsonSpec) -> Option<DstackTdxPolicyV> {
    match v {
        JsonSpec::Obj(fs) => {
            if !(forall|i: int| 0 <= i < fs.len() ==> known_policy_key((#[trigger] fs[i]).0)) {
                None
            } else if !(obj_get(fs, "type"@) matches Some(t) && t == JsonSpec::Str(
                "dstack_tdx"@,
            )) {
                None
            } else {
                let bc = match obj_get(fs, "expected_bootchain"@) {
                    Some(j) => decode_bootchain_spec(j),
                    None => Some(None),
                };
                let ac = match obj_get(fs, "app_compose"@) {
                    Some(JsonSpec::Null) => Some(None),
                    Some(d) => Some(Some(d)),
                    None => Some(None),
                };
                let os = match obj_get(fs, "os_image_hash"@) {
                    Some(j) => decode_opt_string_spec(j),
                    None => Some(None),
                };
                let st = match obj_get(fs, "allowed_tcb_status"@) {
                    Some(j) => decode_statuses_spec(j),
                    None => Some(seq!["UpToDate"@]),
                };
                let pc = match obj_get(fs, "pccs_url"@) {
                    Some(j) => decode_opt_string_spec(j),
                    None => Some(Some(DEFAULT_PCCS_URL@)),
                };
                let cc = match obj_get(fs, "cache_collateral"@) {
                    Some(j) => decode_bool_spec(j),
                    None => Some(false),
                };
                let dr = match obj_get(fs, "disable_runtime_verification"@) {
                    Some(j) => decode_bool_spec(j),
                    None => Some(false),
                };
                let gr = match obj_get(fs, "grace_period_secs"@) {
                    Some(j) => decode_grace_spec(j),
                    None => Some(None),
                };
                if bc is Some && ac is Some && os is Some && st is Some && pc is Some && cc is Some
                    && dr is Some && gr is Some {
                    Some(
                        DstackTdxPolicyV {
                            expected_bootchain: bc->Some_0,
                            app_compose: ac->Some_0,
                            os_image_hash: os->Some_0,
                            allowed_tcb_status: st->Some_0,
                            pccs_url: pc->Some_0,
                            cache_collateral: cc->Some_0,
                            disable_runtime_verification: dr->Some_0,
                            grace_period_secs: gr->Some_0,
                        },
                    )
                } else {
                    None
                }
            }
        },
        _ => None,
    }
}

fn config_err() -> (r: AtlsVerificationError)
    ensures
        r matches AtlsVerificationError::Configuration(_),
{
    AtlsVerificationError::Configuration("invalid policy document".to_owned())
}

fn decode_hex48(j: &JsonVal) -> (r: Result<Vec<u8>, AtlsVerificationError>)
    ensures
        match r {
            Ok(b) => decode_hex48_spec(j.deep()) == Some(b@),
            Err(_) => decode_hex48_spec(j.deep()) is None,
        },
        r is Err ==> r matches Err(AtlsVerificationError::Configuration(_)),
{
    let s = match j {
        JsonVal::Str(s) => s,
        _ => {
            return Err(config_err());
        },
    };
    let bytes = match crate::strutil::ascii_bytes(s.as_str()) {
        Some(b) => b,
        None => {
            return Err(config_err());
        },
    };
    if s.as_str().unicode_len() != 96 {
        return Err(config_err());
    }
    let decoded = match hex_decode_bytes(&bytes) {
        Some(d) => d,
        None => {
            return Err(config_err());
        },
    };
    Ok(decoded)
}

fn decode_bootchain(j: &JsonVal) -> (r: Result<Option<ExpectedBootchain>, AtlsVerificationError>)
    ensures
        match r {
            Ok(Some(b)) => decode_bootchain_spec(j.deep()) == Some(Some(b@)),
            Ok(None) => decode_bootchain_spec(j.deep()) == Some(None::<BootchainV>),
            Err(_) => decode_bootchain_spec(j.deep()) is None,
        },
        r is Err ==> r matches Err(AtlsVerificationError::Configuration(_)),
{
    let bf = match j {
        JsonVal::Null => {
            return Ok(None);
        },
        JsonVal::Obj(bf) => bf,
        _ => {
            return Err(config_err());
        },
    };
    let ghost fs = j.deep()->Obj_0;
    proof {
        assert(*j == JsonVal::Obj(*bf));
        assert(fs.len() == bf@.len());
        assert(forall|i: int| 0 <= i < bf@.len() ==> fs[i] == (bf@[i].0@, bf@[i].1.deep()));
    }
    let mut i: usize = 0;
    while i < bf.len()
        invariant
            i <= bf@.len(),
            *j == JsonVal::Obj(*bf),
            fs == j.deep()->Obj_0,
            fs.len() == bf@.len(),
            forall|k: int| 0 <= k < bf@.len() ==> fs[k] == (bf@[k].0@, bf@[k].1.deep()),
            forall|k: int| 0 <= k < i ==> known_bootchain_key((#[trigger] fs[k]).0),
        decreases bf@.len() - i,
    {
        let key = &bf[i].0;
        if !(str_eq(key.as_str(), "mrtd") || str_eq(key.as_str(), "rtmr0") || str_eq(
            key.as_str(),
            "rtmr1",
        ) || str_eq(key.as_str(), "rtmr2")) {
            proof {
                assert(!known_bootchain_key(fs[i as int].0));
            }
            return Err(config_err());
        }
        i = i + 1;
    }
    let mrtd = match json_obj_get(bf, "mrtd") {
        Some(x) => decode_hex48(x)?,
        None => {
            return Err(config_err());
        },
    };
    let rtmr0 = match json_obj_get(bf, "rtmr0") {
        Some(x) => decode_hex48(x)?,
        None => {
            return Err(config_err());
        },
    };
    let rtmr1 = match json_obj_get(bf, "rtmr1") {
        Some(x) => decode_hex48(x)?,
        None => {
            return Err(config_err());
        },
    };
    let rtmr2 = match json_obj_get(bf, "rtmr2") {
        Some(x) => decode_hex48(x)?,
        None => {
            return Err(config_err());
        },
    };
    Ok(Some(ExpectedBootchain { mrtd, rtmr0, rtmr1, rtmr2 }))
}

/// Values of `Null` shape are exactly the `Null` variant.
proof fn lemma_deep_null(v: JsonVal)
    ensures
        (v.deep() == JsonSpec::Null) <==> (v == JsonVal::Null),
{
    match v {
        JsonVal::Null => {},
        JsonVal::Bool(_) => {},
        JsonVal::Int(_) => {},
        JsonVal::Str(_) => {},
        JsonVal::Arr(_) => {},
        JsonVal::Obj(_) => {},
    }
}

fn decode_statuses(j: &JsonVal) -> (r: Result<Vec<String>, AtlsVerificationError>)
    ensures
        match r {
            Ok(out) => decode_statuses_spec(j.deep()) == Some(str_views(out@)),
            Err(_) => decode_statuses_spec(j.deep()) is None,
        },
        r is Err ==> r matches Err(AtlsVerificationError::Configuration(_)),
{
    let items = match j {
        JsonVal::Arr(items) => items,
        _ => {
            return Err(config_err());
        },
    };
    let ghost di = j.deep()->Arr_0;
    proof {
        assert(*j == JsonVal::Arr(*items));
        assert(di.len() == items@.len());
        assert(forall|k: int| 0 <= k < items@.len() ==> di[k] == items@[k].deep());
    }
    let mut out: Vec<String> = Vec::new();
    let mut k: usize = 0;
    while k < items.len()
        invariant
            k <= items@.len(),
            *j == JsonVal::Arr(*items),
            di == j.deep()->Arr_0,
            di.len() == items@.len(),
            forall|m: int| 0 <= m < items@.len() ==> di[m] == items@[m].deep(),
            out@.len() == k,
            forall|m: int| 0 <= m < k ==> (#[trigger] di[m]) is Str && out@[m]@ == di[m]->Str_0,
        decreases items@.len() - k,
    {
        match &items[k] {
            JsonVal::Str(s) => {
                out.push(s.clone());
            },
            _ => {
                proof {
                    assert(!(di[k as int] is Str));
                }
                return Err(config_err());
            },
        }
        k = k + 1;
    }
    proof {
        assert(decode_statuses_spec(j.deep()) matches Some(ss) && str_views(out@) =~= ss);
    }
    Ok(out)
}

/// Decode a policy configuration from its JSON document.
///
/// Exactly the shape `decode_policy_spec` accepts is accepted; everything
/// else is a `Configuration` error.
pub fn dstack_policy_from_json(j: &JsonVal) -> (r: Result<
    DstackTdxPolicy,
    AtlsVerificationError,
>)
    ensures
        match r {
            Ok(q) => decode_policy_spec(j.deep()) == Some(q@),
            Err(_) => decode_policy_spec(j.deep()) is None,
        },
        r is Err ==> r matches Err(AtlsVerificationError::Configuration(_)),
{
    let fields = match j {
        JsonVal::Obj(fields) => fields,
        _ => {
            return Err(config_err());
        },
    };
    let ghost fs = j.deep()->Obj_0;
    proof {
        assert(*j == JsonVal::Obj(*fields));
        assert(fs.len() == fields@.len());
        assert(forall|i: int|
            0 <= i < fields@.len() ==> fs[i] == (fields@[i].0@, fields@[i].1.deep()));
    }
    let mut i: usize = 0;
    while i < fields.len()
        invariant
            i <= fields@.len(),
            *j == JsonVal::Obj(*fields),
            fs == j.deep()->Obj_0,
            fs.len() == fields@.len(),
            forall|k: int| 0 <= k < fields@.len() ==> fs[k] == (fields@[k].0@, fields@[k].1.deep()),
            forall|k: int| 0 <= k < i ==> known_policy_key((#[trigger] fs[k]).0),
        decreases fields@.len() - i,
    {
        let key = &fields[i].0;
        if !(str_eq(key.as_str(), "type") || str_eq(key.as_str(), "expected_bootchain") || str_eq(
            key.as_str(),
            "app_compose",
        ) || str_eq(key.as_str(), "os_image_hash") || str_eq(key.as_str(), "allowed_tcb_status")
            || str_eq(key.as_str(), "pccs_url") || str_eq(key.as_str(), "cache_collateral")
            || str_eq(key.as_str(), "disable_runtime_verification") || str_eq(
            key.as_str(),
            "grace_period_secs",
        )) {
            proof {
                assert(!known_policy_key(fs[i as int].0));
            }
            return Err(config_err());
        }
        i = i + 1;
    }

    match json_obj_get(fields, "type") {
        Some(JsonVal::Str(t)) => {
            if !str_eq(t.as_str(), "dstack_tdx") {
                return Err(config_err());
            }
        },
        _ => {
            return Err(config_err());
        },
    }

    let expected_bootchain = match json_obj_get(fields, "expected_bootchain") {
        Some(x) => decode_bootchain(x)?,
        None => None,
    };

    let app_compose = match json_obj_get(fields, "app_compose") {
        Some(JsonVal::Null) => None,
        Some(d) => {
            proof {
                lemma_deep_null(*d);
            }
            Some(jv_clone(d))
        },
        None => None,
    };

    let os_image_hash = match json_obj_get(fields, "os_image_hash") {
        Some(JsonVal::Null) => None,
        Some(JsonVal::Str(s)) => Some(s.clone()),
        Some(_) => {
            return Err(config_err());
        },
        None => None,
    };

    let allowed_tcb_status = match json_obj_get(fields, "allowed_tcb_status") {
        Some(x) => decode_statuses(x)?,
        None => default_allowed_tcb_status(),
    };

    let pccs_url = match json_obj_get(fields, "pccs_url") {
        Some(JsonVal::Null) => None,
        Some(JsonVal::Str(s)) => Some(s.clone()),
        Some(_) => {
            return Err(config_err());
        },
        None => default_pccs_url(),
    };

    let cache_collateral = match json_obj_get(fields, "cache_collateral") {
        Some(JsonVal::Bool(b)) => *b,
        Some(_) => {
            return Err(config_err());
        },
        None => false,
    };

    let disable_runtime_verification = match json_obj_get(
        fields,
        "disable_runtime_verification",
    ) {
        Some(JsonVal::Bool(b)) => *b,
        Some(_) => {
            return Err(config_err());
        },
        None => false,
    };

    let grace_period_secs = match json_obj_get(fields, "grace_period_secs") {
        Some(JsonVal::Null) => None,
        Some(JsonVal::Int(n)) => {
            if *n < 0 || *n > 18446744073709551615i128 {
                return Err(config_err());
            }
            Some(*n as u64)
        },
        Some(_) => {
            return Err(config_err());
        },
        None => None,
    };

    let q = DstackTdxPolicy {
        expected_bootchain,
        app_compose,
        os_image_hash,
        allowed_tcb_status,
        pccs_url,
        cache_collateral,
        disable_runtime_verification,
        grace_period_secs,
    };
    proof {
        assert(j.deep() matches JsonSpec::Obj(ofs) && ofs == fs);
        assert(forall|k: int| 0 <= k < fs.len() ==> known_policy_key((#[trigger] fs[k]).0));
        assert(obj_get(fs, "type"@) matches Some(t) && t == JsonSpec::Str("dstack_tdx"@));
        assert(match obj_get(fs, "expected_bootchain"@) {
            Some(x) => decode_bootchain_spec(x),
            None => Some(None),
        } == Some(q@.expected_bootchain));
        assert(match obj_get(fs, "app_compose"@) {
            Some(JsonSpec::Null) => Some(None),
            Some(d) => Some(Some(d)),
            None => Some(None),
        } == Some(q@.app_compose));
        assert(match obj_get(fs, "os_image_hash"@) {
            Some(x) => decode_opt_string_spec(x),
            None => Some(None),
        } == Some(q@.os_image_hash));
        assert(str_views(q.allowed_tcb_status@) =~= q@.allowed_tcb_status);
        assert(match obj_get(fs, "allowed_tcb_status"@) {
            Some(x) => decode_statuses_spec(x),
            None => Some(seq!["UpToDate"@]),
        } == Some(q@.allowed_tcb_status));
        assert(match obj_get(fs, "pccs_url"@) {
            Some(x) => decode_opt_string_spec(x),
            None => Some(Some(DEFAULT_PCCS_URL@)),
        } == Some(q@.pccs_url));
        assert(match obj_get(fs, "cache_collateral"@) {
            Some(x) => decode_bool_spec(x),
            None => Some(false),
        } == Some(q@.cache_collateral));
        assert(match obj_get(fs, "disable_runtime_verification"@) {
            Some(x) => decode_bool_spec(x),
            None => Some(false),
        } == Some(q@.disable_runtime_verification));
        assert(match obj_get(fs, "grace_period_secs"@) {
            Some(x) => decode_grace_spec(x),
            None => Some(None),
        } == Some(q@.grace_period_secs));
        assert(decode_policy_spec(j.deep()) matches Some(pv) && pv == q@);
    }
    Ok(q)
}

/// A policy view the wire format can carry faithfully: boot-chain digests
/// are 48 bytes, and the app-compose expectation, if any, is not the bare
/// JSON `null` (which the format uses for "absent").
pub open spec fn policy_view_wf(p: DstackTdxPolicyV) -> bool {
    &&& (p.expected_bootchain matches Some(b) ==> b.mrtd.len() == 48 && b.rtmr0.len() == 48
        && b.rtmr1.len() == 48 && b.rtmr2.len() == 48)
    &&& p.app_compose != Some(JsonSpec::Null)
}

proof fn lemma_hex48_round_trip(x: Seq<u8>)
    requires
        x.len() == 48,
    ensures
        decode_hex48_spec(JsonSpec::Str(hex_chars_of(x))) == Some(x),
{
    let s = hex_chars_of(x);
    let hb = crate::hexutil::hex_bytes_of(x);
    assert forall|i: int| 0 <= i < hb.len() implies hb[i] < 128 by {
        let n = if i % 2 == 0 {
            (x[i / 2] / 16) as u8
        } else {
            (x[i / 2] % 16) as u8
        };
        assert(hb[i] == crate::hexutil::hex_digit_lower(n));
    }
    assert(chars_as_bytes(s) =~= hb);
    assert(vstd::utf8::is_ascii_chars(s)) by {
        assert forall|i: int| 0 <= i < s.len() implies '\u{0}' <= #[trigger] s[i] <= '\u{7f}' by {
            assert(s[i] == hb[i] as char);
        }
    }
    crate::hexutil::lemma_hex_round_trip(x);
    assert(crate::hexutil::hex_decoded(chars_as_bytes(s)) =~= x);
}

proof fn lemma_bootchain_round_trip(b: BootchainV)
    requires
        b.mrtd.len() == 48,
        b.rtmr0.len() == 48,
        b.rtmr1.len() == 48,
        b.rtmr2.len() == 48,
    ensures
        decode_bootchain_spec(encode_bootchain_spec(b)) == Some(Some(b)),
{
    let ef = encode_bootchain_spec(b)->Obj_0;
    reveal_strlit("mrtd");
    reveal_strlit("rtmr0");
    reveal_strlit("rtmr1");
    reveal_strlit("rtmr2");
    assert("mrtd"@.len() == 4);
    assert("rtmr0"@.len() == 5);
    assert("rtmr0"@[4] == '0' && "rtmr1"@[4] == '1' && "rtmr2"@[4] == '2');
    assert(ef.len() == 4);
    assert forall|i: int| 0 <= i < ef.len() implies known_bootchain_key((#[trigger] ef[i]).0) by {
        assert(ef[0].0 == "mrtd"@ && ef[1].0 == "rtmr0"@ && ef[2].0 == "rtmr1"@ && ef[3].0
            == "rtmr2"@);
    }
    crate::json::lemma_obj_get_at(ef, 0, "mrtd"@);
    crate::json::lemma_obj_get_at(ef, 1, "rtmr0"@);
    crate::json::lemma_obj_get_at(ef, 2, "rtmr1"@);
    crate::json::lemma_obj_get_at(ef, 3, "rtmr2"@);
    lemma_hex48_round_trip(b.mrtd);
    lemma_hex48_round_trip(b.rtmr0);
    lemma_hex48_round_trip(b.rtmr1);
    lemma_hex48_round_trip(b.rtmr2);
}

/// Policy JSON round trip: decoding the encoding of any well-formed policy
/// configuration gives the same configuration back.
pub proof fn lemma_policy_round_trip(p: DstackTdxPolicyV)
    requires
        policy_view_wf(p),
    ensures
        decode_policy_spec(encode_policy_spec(p)) == Some(p),
{
    let ef = encode_policy_fields(p);
    reveal_strlit("type");
    reveal_strlit("expected_bootchain");
    reveal_strlit("app_compose");
    reveal_strlit("os_image_hash");
    reveal_strlit("allowed_tcb_status");
    reveal_strlit("pccs_url");
    reveal_strlit("cache_collateral");
    reveal_strlit("disable_runtime_verification");
    reveal_strlit("grace_period_secs");
    assert("type"@.len() == 4);
    assert("expected_bootchain"@.len() == 18);
    assert("app_compose"@.len() == 11);
    assert("os_image_hash"@.len() == 13);
    assert("allowed_tcb_status"@.len() == 18);
    assert("pccs_url"@.len() == 8);
    assert("cache_collateral"@.len() == 16);
    assert("disable_runtime_verification"@.len() == 28);
    assert("grace_period_secs"@.len() == 17);
    assert("expected_bootchain"@[0] == 'e' && "allowed_tcb_status"@[0] == 'a');
    assert(ef.len() == 9);
    assert forall|i: int| 0 <= i < ef.len() implies known_policy_key((#[trigger] ef[i]).0) by {
        assert(ef[0].0 == "type"@ && ef[1].0 == "expected_bootchain"@ && ef[2].0 == "app_compose"@
            && ef[3].0 == "os_image_hash"@ && ef[4].0 == "allowed_tcb_status"@ && ef[5].0
            == "pccs_url"@ && ef[6].0 == "cache_collateral"@ && ef[7].0
            == "disable_runtime_verification"@ && ef[8].0 == "grace_period_secs"@);
    }
    crate::json::lemma_obj_get_at(ef, 0, "type"@);
    crate::json::lemma_obj_get_at(ef, 1, "expected_bootchain"@);
    crate::json::lemma_obj_get_at(ef, 2, "app_compose"@);
    crate::json::lemma_obj_get_at(ef, 3, "os_image_hash"@);
    crate::json::lemma_obj_get_at(ef, 4, "allowed_tcb_status"@);
    crate::json::lemma_obj_get_at(ef, 5, "pccs_url"@);
    crate::json::lemma_obj_get_at(ef, 6, "cache_collateral"@);
    crate::json::lemma_obj_get_at(ef, 7, "disable_runtime_verification"@);
    crate::json::lemma_obj_get_at(ef, 8, "grace_period_secs"@);
    if p.expected_bootchain is Some {
        lemma_bootchain_round_trip(p.expected_bootchain->Some_0);
    }
    let items = ef[4].1->Arr_0;
    assert forall|i: int| 0 <= i < items.len() implies (#[trigger] items[i]) is Str by {
        assert(items[i] == JsonSpec::Str(p.allowed_tcb_status[i]));
    }
    assert(decode_statuses_spec(ef[4].1) matches Some(ss) && ss =~= p.allowed_tcb_status);
    assert(decode_policy_spec(encode_policy_spec(p)) == Some(p));
}

/// Decode a policy from its JSON document.
pub fn policy_from_json(j: &JsonVal) -> (r: Result<Policy, AtlsVerificationError>)
    ensures
        match r {
            Ok(q) => q matches Policy::DstackTdx(t) && decode_policy_spec(j.deep()) == Some(t@),
            Err(_) => decode_policy_spec(j.deep()) is None,
        },
        r is Err ==> r matches Err(AtlsVerificationError::Configuration(_)),
{
    let t = dstack_policy_from_json(j)?;
    Ok(Policy::DstackTdx(t))
}

} // verus!
