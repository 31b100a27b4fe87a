//! Listings of object files.
use vstd::prelude::*;
use crate::binary::{law_object_round_trip, object_bytes, parse_object, segs_fit};
use crate::disasm::{listing, object_listing};
use crate::isa::Instruction;

verus! {

/// Disassembly needs nothing but the bytes: the listing of the object file
/// of a program is the listing of the program itself, for every program
/// whose sizes fit the address space.
pub proof fn law_listing_from_bytes(entry: u64, code: Seq<Instruction>, segs: Seq<(u64, Seq<u8>)>)
    requires
        16 * code.len() <= usize::MAX,
        segs.len() <= u64::MAX,
        segs_fit(segs),
    ensures
        parse_object(object_bytes(entry, code, segs)) matches Ok(p) && object_listing(p.0, p.1, p.2)
            == object_listing(entry, code, segs) && listing(p.1, Seq::empty(), p.1.len()) == listing(
            code,
            Seq::empty(),
            code.len(),
        ),
{
    law_object_round_trip(entry, code, segs);
}

} // verus!
