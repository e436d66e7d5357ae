//! Choosing the record to update among those a DNS provider lists.
use vstd::prelude::*;

verus! {

/// Time to live, in seconds, of the records this library writes.
pub const RECORD_TTL: u32 = 60;

/// The type of a DNS record.
#[derive(Clone, Copy, Debug, PartialEq, Eq, Structural)]
pub enum RecordKind {
    A,
    Aaaa,
    Cname,
    Ns,
    Mx,
    Txt,
    Srv,
}

/// A record as a provider lists it: its identifier and its type.
#[derive(Clone, Debug)]
pub struct RecordEntry {
    pub id: String,
    pub kind: RecordKind,
}

/// The identifier of the first listed record of type `kind`; `None` when
/// the list holds none of that type.
pub fn find_record(records: &Vec<RecordEntry>, kind: RecordKind) -> (r: Option<String>)
    ensures
        match r {
            Some(id) => exists|i: int|
                0 <= i < records@.len() && records@[i].kind == kind && id@ == records@[i].id@
                    && forall|j: int| 0 <= j < i ==> records@[j].kind != kind,
            None => forall|i: int| 0 <= i < records@.len() ==> records@[i].kind != kind,
        },
{
    let mut i: usize = 0;
    while i < records.len()
        invariant
            i <= records@.len(),
            forall|j: int| 0 <= j < i ==> records@[j].kind != kind,
        decreases records@.len() - i,
    {
        if records[i].kind == kind {
            return Some(records[i].id.clone());
        }
        i = i + 1;
    }
    None
}

/// The identifier of the first zone a lookup by name returned; `None` when
/// it returned none.
pub fn first_zone(zone_ids: &Vec<String>) -> (r: Option<String>)
    ensures
        match r {
            Some(id) => zone_ids@.len() > 0 && id@ == zone_ids@[0]@,
            None => zone_ids@.len() == 0,
        },
{
    if zone_ids.len() == 0 {
        None
    } else {
        Some(zone_ids[0].clone())
    }
}

} // verus!
