//! TCB-info model and TCB-level selection.
//!
//! Intel's TCB info lists levels in a deliberate order; the first level whose
//! SVN requirements the platform meets wins. Selection is order-sensitive by
//! design, empty component arrays are structural errors rather than skips,
//! and an FMSPC or TEE-family mismatch rejects the whole TCB info.

use vstd::prelude::*;

use crate::errors::AtlsVerificationError;
use crate::hexutil::{bytes_eq, hex_decode_bytes, hex_decoded, is_hex_text};
use crate::strutil::{str_eq, string_bytes, utf8_bytes_of};

verus! {

/// One TCB level: component SVN requirements, and the level's official date.
pub struct TcbLevel {
    /// Required SGX component SVNs (16 entries in well-formed collateral).
    pub sgx_components: Vec<u8>,
    /// Required TDX component SVNs (empty for SGX-only TCB info).
    pub tdx_components: Vec<u8>,
    /// Required PCE SVN.
    pub pce_svn: u16,
    /// The level's date, RFC 3339 text.
    pub tcb_date: String,
}

/// Parsed TCB info: identity and the ordered levels.
pub struct TcbInfo {
    /// TEE family the info applies to: `"SGX"` or `"TDX"`.
    pub id: String,
    /// TCB info format version.
    pub version: u8,
    /// FMSPC the info applies to, as hex text.
    pub fmspc: String,
    /// Levels in the order Intel supplied them.
    pub tcb_levels: Vec<TcbLevel>,
}

pub ghost struct TcbLevelV {
    pub sgx_components: Seq<u8>,
    pub tdx_components: Seq<u8>,
    pub pce_svn: u16,
    pub tcb_date: Seq<char>,
}

pub ghost struct TcbInfoV {
    pub id: Seq<char>,
    pub version: u8,
    pub fmspc: Seq<char>,
    pub tcb_levels: Seq<TcbLevelV>,
}

impl View for TcbLevel {
    type V = TcbLevelV;

    open spec fn view(&self) -> TcbLevelV {
        TcbLevelV {
            sgx_components: self.sgx_components@,
            tdx_components: self.tdx_components@,
            pce_svn: self.pce_svn,
            tcb_date: self.tcb_date@,
        }
    }
}

impl View for TcbInfo {
    type V = TcbInfoV;

    open spec fn view(&self) -> TcbInfoV {
        TcbInfoV {
            id: self.id@,
            version: self.version,
            fmspc: self.fmspc@,
            tcb_levels: Seq::new(self.tcb_levels@.len(), |i: int| self.tcb_levels@[i]@),
        }
    }
}

/// The platform SVNs meet the requirement wherever the two overlap
/// (positions beyond the shorter vector are not consulted).
pub open spec fn svn_covers(have: Seq<u8>, need: Seq<u8>) -> bool {
    forall|i: int| 0 <= i < have.len() && i < need.len() ==> #[trigger] have[i] >= need[i]
}

/// How one level fares against the platform's SVNs.
pub enum LevelStep {
    /// The level's requirements are met; it wins.
    Accept,
    /// Some requirement is not met; move to the next level.
    Skip,
    /// The level is structurally invalid (an empty component array).
    Malformed,
}

/// What level selection ends with.
pub ghost enum TcbSelection {
    /// The level at this index wins.
    Level(int),
    /// The level at this index is structurally invalid.
    MalformedLevel(int),
    /// No level matches.
    NoLevel,
}

/// One level's verdict, checked in the order the algorithm consults fields:
/// PCE SVN gate, SGX components (must be nonempty), then for TDX quotes the
/// TDX components (must be nonempty).
pub open spec fn level_step(
    l: TcbLevelV,
    cpu_svn: Seq<u8>,
    pce_svn: u16,
    is_tdx: bool,
    tee_tcb_svn: Seq<u8>,
) -> LevelStep {
    if pce_svn < l.pce_svn {
        LevelStep::Skip
    } else if l.sgx_components.len() == 0 {
        LevelStep::Malformed
    } else if !svn_covers(cpu_svn, l.sgx_components) {
        LevelStep::Skip
    } else if is_tdx && l.tdx_components.len() == 0 {
        LevelStep::Malformed
    } else if is_tdx && !svn_covers(tee_tcb_svn, l.tdx_components) {
        LevelStep::Skip
    } else {
        LevelStep::Accept
    }
}

/// Scan the levels from index `i` on; the first non-skipped level decides.
pub open spec fn select_tcb_level_from(
    levels: Seq<TcbLevelV>,
    cpu_svn: Seq<u8>,
    pce_svn: u16,
    is_tdx: bool,
    tee_tcb_svn: Seq<u8>,
    i: int,
) -> TcbSelection
    recommends
        0 <= i,
    decreases levels.len() - i,
{
    if i < 0 || i >= levels.len() {
        TcbSelection::NoLevel
    } else {
        match level_step(levels[i], cpu_svn, pce_svn, is_tdx, tee_tcb_svn) {
            LevelStep::Accept => TcbSelection::Level(i),
            LevelStep::Malformed => TcbSelection::MalformedLevel(i),
            LevelStep::Skip => select_tcb_level_from(
                levels,
                cpu_svn,
                pce_svn,
                is_tdx,
                tee_tcb_svn,
                i + 1,
            ),
        }
    }
}

/// The whole selection, from the first level.
pub open spec fn select_tcb_level(
    levels: Seq<TcbLevelV>,
    cpu_svn: Seq<u8>,
    pce_svn: u16,
    is_tdx: bool,
    tee_tcb_svn: Seq<u8>,
) -> TcbSelection {
    select_tcb_level_from(levels, cpu_svn, pce_svn, is_tdx, tee_tcb_svn, 0)
}

/// The TCB info's FMSPC (hex text) denotes exactly the quote's FMSPC bytes.
pub open spec fn tcb_fmspc_ok(info: TcbInfoV, fmspc: Seq<u8>) -> bool {
    &&& is_hex_text(utf8_bytes_of(info.fmspc))
    &&& hex_decoded(utf8_bytes_of(info.fmspc)) == fmspc
}

/// The TCB info belongs to the quote's TEE family, at a version that carries
/// the needed component arrays.
pub open spec fn tcb_family_ok(info: TcbInfoV, is_tdx: bool) -> bool {
    if is_tdx {
        info.version >= 3 && info.id == "TDX"@
    } else {
        info.version >= 2 && info.id == "SGX"@
    }
}

fn svn_covers_exec(have: &Vec<u8>, need: &Vec<u8>) -> (r: bool)
    ensures
        r == svn_covers(have@, need@),
{
    let n: usize = if have.len() < need.len() {
        have.len()
    } else {
        need.len()
    };
    let mut i: usize = 0;
    while i < n
        invariant
            i <= n,
            n <= have.len(),
            n <= need.len(),
            n == if have@.len() < need@.len() {
                have@.len() as usize
            } else {
                need@.len() as usize
            },
            forall|j: int| 0 <= j < i ==> #[trigger] have@[j] >= need@[j],
        decreases n - i,
    {
        if have[i] < need[i] {
            return false;
        }
        i = i + 1;
    }
    true
}

/// Select the first TCB level the platform's SVNs meet.
///
/// Checks, in order: the collateral's FMSPC equals the quote's, the TCB info
/// belongs to the quote's TEE family, and then the levels in Intel's order.
/// All failures are `TcbInfoError`.
pub fn match_tcb_level<'a>(
    tcb_info: &'a TcbInfo,
    is_tdx: bool,
    tee_tcb_svn: &Vec<u8>,
    cpu_svn: &Vec<u8>,
    pce_svn: u16,
    fmspc: &Vec<u8>,
) -> (r: Result<&'a TcbLevel, AtlsVerificationError>)
    ensures
        r is Ok <==> tcb_fmspc_ok(tcb_info@, fmspc@) && tcb_family_ok(tcb_info@, is_tdx)
            && select_tcb_level(
            tcb_info@.tcb_levels,
            cpu_svn@,
            pce_svn,
            is_tdx,
            tee_tcb_svn@,
        ) is Level,
        r matches Ok(l) ==> select_tcb_level(
            tcb_info@.tcb_levels,
            cpu_svn@,
            pce_svn,
            is_tdx,
            tee_tcb_svn@,
        ) matches TcbSelection::Level(i) && l@ == tcb_info@.tcb_levels[i],
        r is Err ==> r matches Err(AtlsVerificationError::TcbInfoError(_)),
{
    let fmspc_text = string_bytes(tcb_info.fmspc.as_str());
    let decoded = match hex_decode_bytes(&fmspc_text) {
        Some(d) => d,
        None => {
            return Err(
                AtlsVerificationError::TcbInfoError("failed to decode TCB FMSPC".to_owned()),
            );
        },
    };
    if !bytes_eq(&decoded, fmspc) {
        return Err(AtlsVerificationError::TcbInfoError("FMSPC mismatch in TCB info".to_owned()));
    }

    if is_tdx {
        if tcb_info.version < 3 || !str_eq(tcb_info.id.as_str(), "TDX") {
            return Err(
                AtlsVerificationError::TcbInfoError("TDX quote with non-TDX TCB info".to_owned()),
            );
        }
    } else {
        if tcb_info.version < 2 || !str_eq(tcb_info.id.as_str(), "SGX") {
            return Err(
                AtlsVerificationError::TcbInfoError("SGX quote with non-SGX TCB info".to_owned()),
            );
        }
    }

    let ghost levels = tcb_info@.tcb_levels;
    let mut i: usize = 0;
    while i < tcb_info.tcb_levels.len()
        invariant
            i <= tcb_info.tcb_levels.len(),
            tcb_fmspc_ok(tcb_info@, fmspc@),
            tcb_family_ok(tcb_info@, is_tdx),
            levels == tcb_info@.tcb_levels,
            levels.len() == tcb_info.tcb_levels@.len(),
            forall|j: int| 0 <= j < levels.len() ==> levels[j] == tcb_info.tcb_levels@[j]@,
            select_tcb_level(levels, cpu_svn@, pce_svn, is_tdx, tee_tcb_svn@)
                == select_tcb_level_from(
                levels,
                cpu_svn@,
                pce_svn,
                is_tdx,
                tee_tcb_svn@,
                i as int,
            ),
        decreases tcb_info.tcb_levels.len() - i,
    {
        let level = &tcb_info.tcb_levels[i];
        if pce_svn < level.pce_svn {
            i = i + 1;
            continue ;
        }
        if level.sgx_components.len() == 0 {
            return Err(
                AtlsVerificationError::TcbInfoError("no SGX components in TCB info".to_owned()),
            );
        }
        if !svn_covers_exec(cpu_svn, &level.sgx_components) {
            i = i + 1;
            continue ;
        }
        if is_tdx {
            if level.tdx_components.len() == 0 {
                return Err(
                    AtlsVerificationError::TcbInfoError("no TDX components in TCB info".to_owned()),
                );
            }
            if !svn_covers_exec(tee_tcb_svn, &level.tdx_components) {
                i = i + 1;
                continue ;
            }
        }
        proof {
            assert(levels[i as int] == level@);
            assert(level_step(levels[i as int], cpu_svn@, pce_svn, is_tdx, tee_tcb_svn@)
                == LevelStep::Accept);
            assert(select_tcb_level_from(levels, cpu_svn@, pce_svn, is_tdx, tee_tcb_svn@, i as int)
                == TcbSelection::Level(i as int));
        }
        return Ok(level);
    }
    Err(AtlsVerificationError::TcbInfoError("no matching TCB level found".to_owned()))
}

/// Every level is structurally valid for this TEE family: nonempty SGX
/// components, and nonempty TDX components where the quote is TDX.
pub open spec fn levels_well_formed(levels: Seq<TcbLevelV>, is_tdx: bool) -> bool {
    forall|j: int|
        0 <= j < levels.len() ==> (#[trigger] levels[j]).sgx_components.len() > 0 && (is_tdx
            ==> levels[j].tdx_components.len() > 0)
}

/// A level accepted under some SVNs is accepted under pointwise-greater ones.
proof fn lemma_level_step_monotone(
    l: TcbLevelV,
    cpu1: Seq<u8>,
    cpu2: Seq<u8>,
    pce1: u16,
    pce2: u16,
    is_tdx: bool,
    tee1: Seq<u8>,
    tee2: Seq<u8>,
)
    requires
        level_step(l, cpu1, pce1, is_tdx, tee1) == LevelStep::Accept,
        cpu2.len() == cpu1.len(),
        forall|k: int| 0 <= k < cpu1.len() ==> #[trigger] cpu2[k] >= cpu1[k],
        pce2 >= pce1,
        tee2.len() == tee1.len(),
        forall|k: int| 0 <= k < tee1.len() ==> #[trigger] tee2[k] >= tee1[k],
    ensures
        level_step(l, cpu2, pce2, is_tdx, tee2) == LevelStep::Accept,
{
    assert(svn_covers(cpu2, l.sgx_components)) by {
        assert forall|k: int|
            0 <= k < cpu2.len() && k < l.sgx_components.len() implies #[trigger] cpu2[k]
            >= l.sgx_components[k] by {
            assert(cpu1[k] >= l.sgx_components[k]);
        }
    }
    if is_tdx {
        assert(svn_covers(tee2, l.tdx_components)) by {
            assert forall|k: int|
                0 <= k < tee2.len() && k < l.tdx_components.len() implies #[trigger] tee2[k]
                >= l.tdx_components[k] by {
                assert(tee1[k] >= l.tdx_components[k]);
            }
        }
    }
}

/// In well-formed levels, if any level from `i` on is accepted, the scan from
/// `i` selects the first accepted index.
proof fn lemma_select_finds_first(
    levels: Seq<TcbLevelV>,
    cpu: Seq<u8>,
    pce: u16,
    is_tdx: bool,
    tee: Seq<u8>,
    i: int,
    m: int,
)
    requires
        levels_well_formed(levels, is_tdx),
        0 <= i <= m < levels.len(),
        level_step(levels[m], cpu, pce, is_tdx, tee) == LevelStep::Accept,
    ensures
        select_tcb_level_from(levels, cpu, pce, is_tdx, tee, i) matches TcbSelection::Level(j) && i
            <= j <= m,
    decreases m - i,
{
    let step = level_step(levels[i], cpu, pce, is_tdx, tee);
    assert(step != LevelStep::Malformed);
    if step == LevelStep::Accept {
    } else {
        assert(i < m);
        lemma_select_finds_first(levels, cpu, pce, is_tdx, tee, i + 1, m);
    }
}

/// TCB selection is monotone in the platform's SVN vectors: a quote accepted
/// with SVNs `(cpu1, pce1, tee1)` is, over structurally valid levels, also
/// accepted with any pointwise-greater `(cpu2, pce2, tee2)`, and the winning
/// level comes no later in Intel's order.
pub proof fn lemma_tcb_selection_monotone(
    levels: Seq<TcbLevelV>,
    cpu1: Seq<u8>,
    cpu2: Seq<u8>,
    pce1: u16,
    pce2: u16,
    is_tdx: bool,
    tee1: Seq<u8>,
    tee2: Seq<u8>,
    i: int,
)
    requires
        levels_well_formed(levels, is_tdx),
        select_tcb_level(levels, cpu1, pce1, is_tdx, tee1) == TcbSelection::Level(i),
        cpu2.len() == cpu1.len(),
        forall|k: int| 0 <= k < cpu1.len() ==> #[trigger] cpu2[k] >= cpu1[k],
        pce2 >= pce1,
        tee2.len() == tee1.len(),
        forall|k: int| 0 <= k < tee1.len() ==> #[trigger] tee2[k] >= tee1[k],
    ensures
        select_tcb_level(levels, cpu2, pce2, is_tdx, tee2) matches TcbSelection::Level(j) && 0 <= j
            <= i,
{
    lemma_selected_level_accepts(levels, cpu1, pce1, is_tdx, tee1, 0, i);
    lemma_level_step_monotone(levels[i], cpu1, cpu2, pce1, pce2, is_tdx, tee1, tee2);
    lemma_select_finds_first(levels, cpu2, pce2, is_tdx, tee2, 0, i);
}

/// The selected index really is an accepted level within bounds.
proof fn lemma_selected_level_accepts(
    levels: Seq<TcbLevelV>,
    cpu: Seq<u8>,
    pce: u16,
    is_tdx: bool,
    tee: Seq<u8>,
    i: int,
    m: int,
)
    requires
        0 <= i,
        select_tcb_level_from(levels, cpu, pce, is_tdx, tee, i) == TcbSelection::Level(m),
    ensures
        i <= m < levels.len(),
        level_step(levels[m], cpu, pce, is_tdx, tee) == LevelStep::Accept,
    decreases levels.len() - i,
{
    if i < levels.len() {
        if level_step(levels[i], cpu, pce, is_tdx, tee) == LevelStep::Skip {
            lemma_selected_level_accepts(levels, cpu, pce, is_tdx, tee, i + 1, m);
        }
    }
}

} // verus!
