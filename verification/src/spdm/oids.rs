//! Tests on the SPDM object identifiers (the DMTF arc 1.3.6.1.4.1.412.274).
use vstd::prelude::*;
use crate::oid::{
    hardware_identity, spdm_requester_auth, spdm_responder_auth, spec_hardware_identity,
    spec_spdm_requester_auth, spec_spdm_responder_auth, Oid,
};

verus! {

/// The content octets of the SPDM arc, 1.3.6.1.4.1.412.274.
pub open spec fn spec_spdm_arc() -> Seq<u8> {
    seq![0x2Bu8, 0x06, 0x01, 0x04, 0x01, 0x83, 0x1C, 0x82, 0x12]
}

/// Whether an identifier lies under the SPDM arc (it extends it by at
/// least one more arc).
pub open spec fn spec_is_spdm_oid(o: Seq<u8>) -> bool {
    o.len() > spec_spdm_arc().len() && o.subrange(0, spec_spdm_arc().len() as int) == spec_spdm_arc()
}

/// Whether an identifier lies under the SPDM arc.
pub fn is_spdm_oid(oid: &Oid) -> (r: bool)
    ensures
        r == spec_is_spdm_oid(oid@),
{
    let arc: Vec<u8> = vec![0x2Bu8, 0x06, 0x01, 0x04, 0x01, 0x83, 0x1C, 0x82, 0x12];
    assert(arc@ =~= spec_spdm_arc());
    let b = oid.as_bytes();
    if b.len() <= arc.len() {
        return false;
    }
    let mut i: usize = 0;
    while i < arc.len()
        invariant
            i <= arc.len() < b.len(),
            arc@ == spec_spdm_arc(),
            b@ == oid@,
            forall|j: int| 0 <= j < i ==> b@[j] == arc@[j],
        decreases arc.len() - i,
    {
        if b[i] != arc[i] {
            assert(b@.subrange(0, arc.len() as int)[i as int] != spec_spdm_arc()[i as int]);
            return false;
        }
        i = i + 1;
    }
    assert(b@.subrange(0, arc.len() as int) =~= spec_spdm_arc());
    true
}

/// Whether an identifier is the SPDM hardware identity.
pub fn is_hardware_identity(oid: &Oid) -> (r: bool)
    ensures
        r == (oid@ == spec_hardware_identity()),
{
    oid.same(&hardware_identity())
}

/// Whether an identifier is one of the SPDM key purposes (Requester or
/// Responder authentication).
pub fn is_spdm_eku(oid: &Oid) -> (r: bool)
    ensures
        r == (oid@ == spec_spdm_requester_auth() || oid@ == spec_spdm_responder_auth()),
{
    oid.same(&spdm_requester_auth()) || oid.same(&spdm_responder_auth())
}

} // verus!
