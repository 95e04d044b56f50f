//! DStack event-log replay and measurement binding.
//!
//! The event log is an ordered sequence of measured events. Replaying it
//! yields one running SHA-384 digest per measurement register, by the rule
//! `new = SHA384(old || digest)` starting from 48 zero bytes; the replayed
//! registers must reproduce the quote's RTMRs.

use vstd::prelude::*;

use crate::digest::{extend_bytes, sha384, sha384_of};
use crate::errors::AtlsVerificationError;
use crate::hexutil::bytes_eq;
use crate::json::JsonVal;
use crate::policy::ExpectedBootchain;
use crate::quote::TdQuote;
use crate::strutil::str_eq;

verus! {

/// One measured event.
pub struct EventLogEntry {
    /// Which measurement register the event extends (0..=3).
    pub imr: u32,
    /// The event's type tag.
    pub event_type: u32,
    /// The 48-byte digest the register is extended with.
    pub digest: Vec<u8>,
    /// The event's name (for example `os-image-hash` or `app-compose`).
    pub event: String,
    /// The event's payload bytes.
    pub event_payload: Vec<u8>,
}

pub ghost struct EventLogEntryV {
    pub imr: u32,
    pub event_type: u32,
    pub digest: Seq<u8>,
    pub event: Seq<char>,
    pub event_payload: Seq<u8>,
}

impl View for EventLogEntry {
    type V = EventLogEntryV;

    open spec fn view(&self) -> EventLogEntryV {
        EventLogEntryV {
            imr: self.imr,
            event_type: self.event_type,
            digest: self.digest@,
            event: self.event@,
            event_payload: self.event_payload@,
        }
    }
}

/// The view of a whole log.
pub open spec fn log_view(log: Seq<EventLogEntry>) -> Seq<EventLogEntryV> {
    Seq::new(log.len(), |i: int| log[i]@)
}

/// Every entry names a register that exists.
pub open spec fn log_wf(log: Seq<EventLogEntryV>) -> bool {
    forall|i: int| 0 <= i < log.len() ==> (#[trigger] log[i]).imr < 4
}

/// A register's initial state: 48 zero bytes.
pub open spec fn zero_digest() -> Seq<u8> {
    Seq::new(48, |i: int| 0u8)
}

/// The value register `which` holds after replaying the whole log.
pub open spec fn replayed_imr(log: Seq<EventLogEntryV>, which: u32) -> Seq<u8>
    decreases log.len(),
{
    if log.len() == 0 {
        zero_digest()
    } else {
        let prev = replayed_imr(log.drop_last(), which);
        if log.last().imr == which {
            sha384_of(prev + log.last().digest)
        } else {
            prev
        }
    }
}

/// The four registers after replay.
pub struct ReplayedImrs {
    pub imr0: Vec<u8>,
    pub imr1: Vec<u8>,
    pub imr2: Vec<u8>,
    pub imr3: Vec<u8>,
}

/// Replay the log: extend each named register with each entry's digest in
/// sequence order.
pub fn replay_event_log(log: &Vec<EventLogEntry>) -> (r: ReplayedImrs)
    requires
        log_wf(log_view(log@)),
    ensures
        r.imr0@ == replayed_imr(log_view(log@), 0),
        r.imr1@ == replayed_imr(log_view(log@), 1),
        r.imr2@ == replayed_imr(log_view(log@), 2),
        r.imr3@ == replayed_imr(log_view(log@), 3),
{
    let mut state0 = zero_digest_exec();
    let mut state1 = zero_digest_exec();
    let mut state2 = zero_digest_exec();
    let mut state3 = zero_digest_exec();
    let ghost whole = log_view(log@);
    let mut i: usize = 0;
    while i < log.len()
        invariant
            i <= log@.len(),
            whole == log_view(log@),
            whole.len() == log@.len(),
            log_wf(whole),
            forall|j: int| 0 <= j < log@.len() ==> whole[j] == log@[j]@,
            state0@ == replayed_imr(whole.subrange(0, i as int), 0),
            state1@ == replayed_imr(whole.subrange(0, i as int), 1),
            state2@ == replayed_imr(whole.subrange(0, i as int), 2),
            state3@ == replayed_imr(whole.subrange(0, i as int), 3),
        decreases log@.len() - i,
    {
        let entry = &log[i];
        let next = {
            let mut cat: Vec<u8> = Vec::new();
            if entry.imr == 0 {
                extend_bytes(&mut cat, &state0);
            } else if entry.imr == 1 {
                extend_bytes(&mut cat, &state1);
            } else if entry.imr == 2 {
                extend_bytes(&mut cat, &state2);
            } else {
                extend_bytes(&mut cat, &state3);
            }
            extend_bytes(&mut cat, &entry.digest);
            sha384(&cat)
        };
        if entry.imr == 0 {
            state0 = next;
        } else if entry.imr == 1 {
            state1 = next;
        } else if entry.imr == 2 {
            state2 = next;
        } else {
            state3 = next;
        }
        i = i + 1;
        proof {
            let pre = whole.subrange(0, i - 1);
            let now = whole.subrange(0, i as int);
            assert(now.drop_last() =~= pre);
            assert(now.last() == whole[i - 1]);
        }
    }
    proof {
        assert(whole.subrange(0, whole.len() as int) =~= whole);
    }
    ReplayedImrs { imr0: state0, imr1: state1, imr2: state2, imr3: state3 }
}

fn zero_digest_exec() -> (r: Vec<u8>)
    ensures
        r@ == zero_digest(),
{
    let mut v: Vec<u8> = Vec::new();
    let mut i: usize = 0;
    while i < 48
        invariant
            i <= 48,
            v@ =~= zero_digest().subrange(0, i as int),
        decreases 48 - i,
    {
        v.push(0);
        i = i + 1;
        proof {
            assert(v@ =~= zero_digest().subrange(0, i as int));
        }
    }
    proof {
        assert(zero_digest().subrange(0, 48) =~= zero_digest());
    }
    v
}

/// The first entry with the given event name, front to back.
pub open spec fn find_event_spec(log: Seq<EventLogEntryV>, name: Seq<char>) -> Option<
    EventLogEntryV,
>
    decreases log.len(),
{
    if log.len() == 0 {
        None
    } else if log[0].event == name {
        Some(log[0])
    } else {
        find_event_spec(log.drop_first(), name)
    }
}

/// Find the first entry named `name`.
pub fn find_event<'a>(log: &'a Vec<EventLogEntry>, name: &str) -> (r: Option<&'a EventLogEntry>)
    ensures
        match r {
            Some(e) => find_event_spec(log_view(log@), name@) == Some(e@),
            None => find_event_spec(log_view(log@), name@) is None,
        },
{
    let ghost whole = log_view(log@);
    proof {
        assert(whole.skip(0) =~= whole);
    }
    let mut i: usize = 0;
    while i < log.len()
        invariant
            i <= log@.len(),
            whole == log_view(log@),
            whole.len() == log@.len(),
            forall|j: int| 0 <= j < log@.len() ==> whole[j] == log@[j]@,
            find_event_spec(whole, name@) == find_event_spec(whole.skip(i as int), name@),
        decreases log@.len() - i,
    {
        proof {
            assert(whole.skip(i as int).len() == whole.len() - i);
            assert(whole.skip(i as int)[0] == whole[i as int]);
            assert(whole.skip(i as int).drop_first() =~= whole.skip(i as int + 1));
        }
        if str_eq(log[i].event.as_str(), name) {
            return Some(&log[i]);
        }
        i = i + 1;
    }
    proof {
        assert(whole.skip(whole.len() as int).len() == 0);
    }
    None
}

/// Whether the replayed registers and, where expected, the policy's
/// boot-chain values all agree with the quote.
pub open spec fn bootchain_ok(
    log: Seq<EventLogEntryV>,
    td: TdQuote,
    expected: Option<ExpectedBootchain>,
) -> bool {
    &&& replayed_imr(log, 0) == td.rt_mr0@
    &&& replayed_imr(log, 1) == td.rt_mr1@
    &&& replayed_imr(log, 2) == td.rt_mr2@
    &&& match expected {
        Some(b) => b.mrtd@ == td.mr_td@ && b.rtmr0@ == td.rt_mr0@ && b.rtmr1@ == td.rt_mr1@
            && b.rtmr2@ == td.rt_mr2@,
        None => true,
    }
}

/// The first disagreement the boot-chain check finds, in the order it
/// looks: the replayed IMR 0..=2 against the quote's RTMR0..2, then the
/// pinned boot chain (MRTD first) against the quote. Each fault carries the
/// register's name, the expected digest and the quote's actual digest.
pub open spec fn bootchain_fault(
    log: Seq<EventLogEntryV>,
    td: TdQuote,
    expected: Option<ExpectedBootchain>,
) -> Option<(Seq<char>, Seq<u8>, Seq<u8>)> {
    if replayed_imr(log, 0) != td.rt_mr0@ {
        Some(("RTMR0"@, replayed_imr(log, 0), td.rt_mr0@))
    } else if replayed_imr(log, 1) != td.rt_mr1@ {
        Some(("RTMR1"@, replayed_imr(log, 1), td.rt_mr1@))
    } else if replayed_imr(log, 2) != td.rt_mr2@ {
        Some(("RTMR2"@, replayed_imr(log, 2), td.rt_mr2@))
    } else {
        match expected {
            Some(b) => if b.mrtd@ != td.mr_td@ {
                Some(("MRTD"@, b.mrtd@, td.mr_td@))
            } else if b.rtmr0@ != td.rt_mr0@ {
                Some(("RTMR0"@, b.rtmr0@, td.rt_mr0@))
            } else if b.rtmr1@ != td.rt_mr1@ {
                Some(("RTMR1"@, b.rtmr1@, td.rt_mr1@))
            } else if b.rtmr2@ != td.rt_mr2@ {
                Some(("RTMR2"@, b.rtmr2@, td.rt_mr2@))
            } else {
                None
            },
            None => None,
        }
    }
}

/// Replay the event log against the quote's measurement registers.
///
/// Succeeds exactly when the replayed IMR 0..=2 equal the quote's RTMR0..2
/// and, if the policy pins a boot chain, the quote's MRTD and RTMR0..2 equal
/// the pinned values. Any difference is `BootchainMismatch`, naming the
/// first differing register and carrying the expected and actual digests as
/// hex.
pub fn check_bootchain(
    log: &Vec<EventLogEntry>,
    td: &TdQuote,
    expected: Option<&ExpectedBootchain>,
) -> (r: Result<(), AtlsVerificationError>)
    requires
        log_wf(log_view(log@)),
    ensures
        r is Ok <==> bootchain_ok(
            log_view(log@),
            *td,
            match expected {
                Some(b) => Some(*b),
                None => None,
            },
        ),
        r matches Err(e) ==> (bootchain_fault(
            log_view(log@),
            *td,
            match expected {
                Some(b) => Some(*b),
                None => None,
            },
        ) matches Some(f) && e matches AtlsVerificationError::BootchainMismatch {
            which: w,
            expected: x,
            actual: a,
        } && w@ == f.0 && x@ == crate::hexutil::hex_chars_of(f.1) && a@
            == crate::hexutil::hex_chars_of(f.2)),
{
    let replayed = replay_event_log(log);
    if !bytes_eq(&replayed.imr0, &td.rt_mr0) {
        return Err(bootchain_mismatch("RTMR0", &replayed.imr0, &td.rt_mr0));
    }
    if !bytes_eq(&replayed.imr1, &td.rt_mr1) {
        return Err(bootchain_mismatch("RTMR1", &replayed.imr1, &td.rt_mr1));
    }
    if !bytes_eq(&replayed.imr2, &td.rt_mr2) {
        return Err(bootchain_mismatch("RTMR2", &replayed.imr2, &td.rt_mr2));
    }
    if let Some(b) = expected {
        if !bytes_eq(&b.mrtd, &td.mr_td) {
            return Err(bootchain_mismatch("MRTD", &b.mrtd, &td.mr_td));
        }
        if !bytes_eq(&b.rtmr0, &td.rt_mr0) {
            return Err(bootchain_mismatch("RTMR0", &b.rtmr0, &td.rt_mr0));
        }
        if !bytes_eq(&b.rtmr1, &td.rt_mr1) {
            return Err(bootchain_mismatch("RTMR1", &b.rtmr1, &td.rt_mr1));
        }
        if !bytes_eq(&b.rtmr2, &td.rt_mr2) {
            return Err(bootchain_mismatch("RTMR2", &b.rtmr2, &td.rt_mr2));
        }
    }
    Ok(())
}

/// The log carries an `os-image-hash` event whose payload is the expected
/// hash's hex text, compared case-insensitively.
pub open spec fn os_image_ok(log: Seq<EventLogEntryV>, expected_hex: Seq<char>) -> bool {
    find_event_spec(log, "os-image-hash"@) matches Some(e) && crate::hexutil::ascii_lower_seq(
        e.event_payload,
    ) == crate::hexutil::ascii_lower_seq(crate::strutil::utf8_bytes_of(expected_hex))
}

/// Check the logged OS image hash against the policy's expectation.
///
/// The log must contain an `os-image-hash` event whose payload is the hex
/// ASCII of the OS image SHA-256; it is compared case-insensitively with
/// `expected_hex`. A missing event or a different hash is `OsImageMismatch`.
pub fn check_os_image(
    log: &Vec<EventLogEntry>,
    expected_hex: &String,
) -> (r: Result<(), AtlsVerificationError>)
    ensures
        r is Ok <==> os_image_ok(log_view(log@), expected_hex@),
        r is Err ==> r matches Err(AtlsVerificationError::OsImageMismatch { .. }),
{
    let entry = match find_event(log, "os-image-hash") {
        Some(e) => e,
        None => {
            return Err(
                AtlsVerificationError::OsImageMismatch {
                    expected: expected_hex.clone(),
                    actual: String::new(),
                },
            );
        },
    };
    let logged = crate::hexutil::ascii_lower_bytes(&entry.event_payload);
    let expected_bytes = crate::strutil::string_bytes(expected_hex.as_str());
    let wanted = crate::hexutil::ascii_lower_bytes(&expected_bytes);
    if bytes_eq(&logged, &wanted) {
        Ok(())
    } else {
        Err(
            AtlsVerificationError::OsImageMismatch {
                expected: expected_hex.clone(),
                actual: crate::strutil::hex_string(&entry.event_payload),
            },
        )
    }
}

fn log_err() -> (r: AtlsVerificationError)
    ensures
        r matches AtlsVerificationError::EventLogMalformed(_),
{
    AtlsVerificationError::EventLogMalformed("malformed event log".to_owned())
}

/// Hex-text bytes inside the log's JSON: an ASCII string of hex digits, or
/// nothing.
pub open spec fn decode_log_hex_spec(j: crate::json::JsonSpec) -> Option<Seq<u8>> {
    match j {
        crate::json::JsonSpec::Str(t) => {
            if vstd::utf8::is_ascii_chars(t) && crate::hexutil::is_hex_text(
                crate::strutil::chars_as_bytes(t),
            ) {
                Some(crate::hexutil::hex_decoded(crate::strutil::chars_as_bytes(t)))
            } else {
                None
            }
        },
        _ => None,
    }
}

fn decode_log_hex(j: &JsonVal) -> (r: Result<Vec<u8>, AtlsVerificationError>)
    ensures
        match r {
            Ok(b) => decode_log_hex_spec(j.deep()) == Some(b@),
            Err(_) => decode_log_hex_spec(j.deep()) is None,
        },
        r is Err ==> r matches Err(AtlsVerificationError::EventLogMalformed(_)),
{
    let s = match j {
        JsonVal::Str(s) => s,
        _ => {
            return Err(log_err());
        },
    };
    let bytes = match crate::strutil::ascii_bytes(s.as_str()) {
        Some(b) => b,
        None => {
            return Err(log_err());
        },
    };
    match crate::hexutil::hex_decode_bytes(&bytes) {
        Some(d) => Ok(d),
        None => Err(log_err()),
    }
}

/// One decoded entry: an object whose `imr` is 0..=3, `event_type` fits 32
/// bits, `digest` is 48 hex-decoded bytes, `event` is a string, and
/// `event_payload` is hex text. Unknown fields are ignored.
pub open spec fn decode_entry_spec(j: crate::json::JsonSpec) -> Option<EventLogEntryV> {
    match j {
        crate::json::JsonSpec::Obj(fs) => {
            if {
                &&& crate::json::obj_get(fs, "imr"@) matches Some(crate::json::JsonSpec::Int(n))
                    && 0 <= n <= 3
                &&& crate::json::obj_get(fs, "event_type"@) matches Some(
                    crate::json::JsonSpec::Int(m),
                ) && 0 <= m <= u32::MAX
                &&& crate::json::obj_get(fs, "digest"@) matches Some(d) && decode_log_hex_spec(
                    d,
                ) matches Some(db) && db.len() == 48
                &&& crate::json::obj_get(fs, "event"@) matches Some(crate::json::JsonSpec::Str(_))
                &&& crate::json::obj_get(fs, "event_payload"@) matches Some(p)
                    && decode_log_hex_spec(p) is Some
            } {
                Some(
                    EventLogEntryV {
                        imr: crate::json::obj_get(fs, "imr"@)->Some_0->Int_0 as u32,
                        event_type: crate::json::obj_get(fs, "event_type"@)->Some_0->Int_0 as u32,
                        digest: decode_log_hex_spec(
                            crate::json::obj_get(fs, "digest"@)->Some_0,
                        )->Some_0,
                        event: crate::json::obj_get(fs, "event"@)->Some_0->Str_0,
                        event_payload: decode_log_hex_spec(
                            crate::json::obj_get(fs, "event_payload"@)->Some_0,
                        )->Some_0,
                    },
                )
            } else {
                None
            }
        },
        _ => None,
    }
}

/// The whole log: an array whose every item decodes as an entry.
pub open spec fn decode_log_spec(j: crate::json::JsonSpec) -> Option<Seq<EventLogEntryV>> {
    match j {
        crate::json::JsonSpec::Arr(items) => {
            if forall|i: int| 0 <= i < items.len() ==> (#[trigger] decode_entry_spec(items[i]))
                is Some {
                Some(Seq::new(items.len(), |i: int| decode_entry_spec(items[i])->Some_0))
            } else {
                None
            }
        },
        _ => None,
    }
}

/// Decode a DStack event log from its JSON form: an array of entries, each
/// an object with `imr` (0..=3), `event_type`, a 96-character hex `digest`,
/// an `event` name, and a hex `event_payload`. Unknown entry fields are
/// ignored. Succeeds exactly when `decode_log_spec` does; anything else is
/// `EventLogMalformed`.
pub fn decode_event_log(j: &JsonVal) -> (r: Result<Vec<EventLogEntry>, AtlsVerificationError>)
    ensures
        match r {
            Ok(es) => decode_log_spec(j.deep()) == Some(log_view(es@)) && log_wf(log_view(es@)),
            Err(_) => decode_log_spec(j.deep()) is None,
        },
        r is Err ==> r matches Err(AtlsVerificationError::EventLogMalformed(_)),
{
    let items = match j {
        JsonVal::Arr(items) => items,
        _ => {
            return Err(log_err());
        },
    };
    let ghost di = j.deep()->Arr_0;
    proof {
        assert(*j == JsonVal::Arr(*items));
        assert(di.len() == items@.len());
        assert(forall|k: int| 0 <= k < items@.len() ==> di[k] == items@[k].deep());
    }
    let mut out: Vec<EventLogEntry> = Vec::new();
    let mut i: usize = 0;
    while i < items.len()
        invariant
            i <= items@.len(),
            *j == JsonVal::Arr(*items),
            di == j.deep()->Arr_0,
            di.len() == items@.len(),
            forall|k: int| 0 <= k < items@.len() ==> di[k] == items@[k].deep(),
            out@.len() == i,
            forall|k: int|
                0 <= k < i ==> #[trigger] decode_entry_spec(di[k]) == Some(out@[k]@),
            log_wf(log_view(out@)),
        decreases items@.len() - i,
    {
        let item = &items[i];
        let fields = match item {
            JsonVal::Obj(fields) => fields,
            _ => {
                proof {
                    assert(decode_entry_spec(di[i as int]) is None);
                }
                return Err(log_err());
            },
        };
        proof {
            assert(*item == JsonVal::Obj(*fields));
        }
        let imr: u32 = match crate::json::json_obj_get(fields, "imr") {
            Some(JsonVal::Int(n)) => {
                if *n < 0 || *n > 3 {
                    proof {
                        assert(decode_entry_spec(di[i as int]) is None);
                    }
                    return Err(log_err());
                }
                *n as u32
            },
            _ => {
                proof {
                    assert(decode_entry_spec(di[i as int]) is None);
                }
                return Err(log_err());
            },
        };
        let event_type: u32 = match crate::json::json_obj_get(fields, "event_type") {
            Some(JsonVal::Int(n)) => {
                if *n < 0 || *n > 4294967295i128 {
                    proof {
                        assert(decode_entry_spec(di[i as int]) is None);
                    }
                    return Err(log_err());
                }
                *n as u32
            },
            _ => {
                proof {
                    assert(decode_entry_spec(di[i as int]) is None);
                }
                return Err(log_err());
            },
        };
        let digest = match crate::json::json_obj_get(fields, "digest") {
            Some(x) => match decode_log_hex(x) {
                Ok(d) => d,
                Err(e) => {
                    proof {
                        assert(decode_entry_spec(di[i as int]) is None);
                    }
                    return Err(e);
                },
            },
            None => {
                proof {
                    assert(decode_entry_spec(di[i as int]) is None);
                }
                return Err(log_err());
            },
        };
        if digest.len() != 48 {
            proof {
                assert(decode_entry_spec(di[i as int]) is None);
            }
            return Err(log_err());
        }
        let event = match crate::json::json_obj_get(fields, "event") {
            Some(JsonVal::Str(s)) => s.clone(),
            _ => {
                proof {
                    assert(decode_entry_spec(di[i as int]) is None);
                }
                return Err(log_err());
            },
        };
        let event_payload = match crate::json::json_obj_get(fields, "event_payload") {
            Some(x) => match decode_log_hex(x) {
                Ok(p) => p,
                Err(e) => {
                    proof {
                        assert(decode_entry_spec(di[i as int]) is None);
                    }
                    return Err(e);
                },
            },
            None => {
                proof {
                    assert(decode_entry_spec(di[i as int]) is None);
                }
                return Err(log_err());
            },
        };
        let ghost prev = out@;
        let entry = EventLogEntry { imr, event_type, digest, event, event_payload };
        proof {
            assert(decode_entry_spec(di[i as int]) == Some(entry@));
        }
        out.push(entry);
        i = i + 1;
        proof {
            assert forall|k: int|
                0 <= k < out@.len() implies (#[trigger] log_view(out@)[k]).imr < 4 by {
                assert(log_view(out@)[k] == out@[k]@);
                if k < prev.len() {
                    assert(out@[k] == prev[k]);
                    assert(log_view(prev)[k] == prev[k]@);
                    assert(log_view(prev)[k].imr < 4);
                }
            }
            assert forall|k: int|
                0 <= k < i implies #[trigger] decode_entry_spec(di[k]) == Some(out@[k]@) by {
                if k < prev.len() {
                    assert(out@[k] == prev[k]);
                }
            }
        }
    }
    proof {
        assert(decode_log_spec(j.deep()) matches Some(es) && es =~= log_view(out@));
    }
    Ok(out)
}

fn bootchain_mismatch(
    which: &str,
    expected: &Vec<u8>,
    actual: &Vec<u8>,
) -> (r: AtlsVerificationError)
    ensures
        r matches AtlsVerificationError::BootchainMismatch { which: w, expected: x, actual: a }
            && w@ == which@ && x@ == crate::hexutil::hex_chars_of(expected@) && a@
            == crate::hexutil::hex_chars_of(actual@),
{
    AtlsVerificationError::BootchainMismatch {
        which: which.to_owned(),
        expected: crate::strutil::hex_string(expected),
        actual: crate::strutil::hex_string(actual),
    }
}

} // verus!
