//! Which hardware breakpoint unit of a core serves a request: the units are
//! given as the core reports them, each with the address it holds, if any.

use crate::error::Error;
use vstd::prelude::*;

verus! {

/// `index` is the first place at which `units` holds `unit`.
pub open spec fn is_first(units: Seq<Option<u64>>, unit: Option<u64>, index: int) -> bool {
    &&& 0 <= index < units.len()
    &&& units[index] == unit
    &&& forall|j: int| 0 <= j < index ==> units[j] != unit
}

/// `units` holds `unit` nowhere.
pub open spec fn is_absent(units: Seq<Option<u64>>, unit: Option<u64>) -> bool {
    forall|j: int| 0 <= j < units.len() ==> units[j] != unit
}

/// The addresses that the units from `from` on hold, in the order of the units.
pub open spec fn addresses_from(units: Seq<Option<u64>>, from: int) -> Seq<u64>
    decreases units.len() - from,
{
    if from < 0 || from >= units.len() {
        Seq::empty()
    } else {
        match units[from] {
            Some(address) => seq![address] + addresses_from(units, from + 1),
            None => addresses_from(units, from + 1),
        }
    }
}

/// The first place at which `units` holds `unit`, if there is one.
pub fn position_of(units: &[Option<u64>], unit: Option<u64>) -> (r: Option<usize>)
    ensures
        match r {
            Some(index) => is_first(units@, unit, index as int),
            None => is_absent(units@, unit),
        },
{
    let mut i: usize = 0;
    while i < units.len()
        invariant
            i <= units.len(),
            forall|j: int| 0 <= j < i ==> units@[j] != unit,
        decreases units.len() - i,
    {
        let same = match (units[i], unit) {
            (Some(a), Some(b)) => a == b,
            (None, None) => true,
            _ => false,
        };
        if same {
            return Some(i);
        }
        i = i + 1;
    }
    None
}

/// The first breakpoint unit that is free. Fails with
/// `NoBreakpointUnitAvailable` where every unit holds an address.
pub fn find_free_breakpoint_comparator_index(units: &[Option<u64>]) -> (r: Result<usize, Error>)
    ensures
        match r {
            Ok(index) => is_first(units@, None, index as int),
            Err(e) => e == Error::NoBreakpointUnitAvailable && is_absent(units@, None),
        },
{
    match position_of(units, None) {
        Some(index) => Ok(index),
        None => Err(Error::NoBreakpointUnitAvailable),
    }
}

/// The unit in which a breakpoint at `address` is set: the first one that
/// holds the address already, else the first free one. Fails with
/// `NoBreakpointUnitAvailable` where there is neither.
pub fn unit_for_new_breakpoint(units: &[Option<u64>], address: u64) -> (r: Result<usize, Error>)
    ensures
        match r {
            Ok(index) => is_first(units@, Some(address), index as int) || (is_absent(
                units@,
                Some(address),
            ) && is_first(units@, None, index as int)),
            Err(e) => e == Error::NoBreakpointUnitAvailable && is_absent(units@, Some(address))
                && is_absent(units@, None),
        },
{
    match position_of(units, Some(address)) {
        Some(index) => Ok(index),
        None => find_free_breakpoint_comparator_index(units),
    }
}

/// The unit whose breakpoint at `address` is cleared: the first one that
/// holds the address. Fails with `NoBreakpointAt` where none does.
pub fn unit_of_breakpoint(units: &[Option<u64>], address: u64) -> (r: Result<usize, Error>)
    ensures
        match r {
            Ok(index) => is_first(units@, Some(address), index as int),
            Err(e) => e == Error::NoBreakpointAt(address) && is_absent(units@, Some(address)),
        },
{
    match position_of(units, Some(address)) {
        Some(index) => Ok(index),
        None => Err(Error::NoBreakpointAt(address)),
    }
}

/// The addresses at which breakpoints are set, in the order of their units:
/// what is cleared when all breakpoints are.
pub fn set_breakpoints(units: &[Option<u64>]) -> (addresses: Vec<u64>)
    ensures
        addresses@ == addresses_from(units@, 0),
{
    let mut addresses: Vec<u64> = Vec::new();
    let mut k: usize = 0;
    while k < units.len()
        invariant
            k <= units.len(),
            addresses@ + addresses_from(units@, k as int) == addresses_from(units@, 0),
        decreases units.len() - k,
    {
        match units[k] {
            Some(address) => {
                let ghost before = addresses@;
                addresses.push(address);
                assert(addresses@ + addresses_from(units@, k + 1) =~= before + (seq![address]
                    + addresses_from(units@, k + 1)));
            },
            None => {},
        }
        k = k + 1;
    }
    assert(addresses@ + Seq::<u64>::empty() =~= addresses@);
    addresses
}

} // verus!
