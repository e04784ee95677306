//! Relating executable results to the models that contracts speak of.
use vstd::prelude::*;

verus! {

/// The executable result `r` is modelled by `v`.
pub open spec fn is_outcome<T: View, E: View>(r: Result<T, E>, v: Result<T::V, E::V>) -> bool {
    match (r, v) {
        (Ok(a), Ok(b)) => a@ == b,
        (Err(a), Err(b)) => a@ == b,
        _ => false,
    }
}

/// The executable option `o` is modelled by `v`.
pub open spec fn option_view<T: View>(o: Option<T>) -> Option<T::V> {
    match o {
        Some(value) => Some(value@),
        None => None,
    }
}

/// The model of an executable result.
pub open spec fn result_view<T: View, E: View>(r: Result<T, E>) -> Result<T::V, E::V> {
    match r {
        Ok(value) => Ok(value@),
        Err(e) => Err(e@),
    }
}

/// The model of an executable check.
pub open spec fn check_view<E: View>(r: Result<(), E>) -> Result<(), E::V> {
    match r {
        Ok(_) => Ok(()),
        Err(e) => Err(e@),
    }
}

/// The executable check `r` is modelled by `v`.
pub open spec fn is_check<E: View>(r: Result<(), E>, v: Result<(), E::V>) -> bool {
    match (r, v) {
        (Ok(_), Ok(_)) => true,
        (Err(a), Err(b)) => a@ == b,
        _ => false,
    }
}

/// The executable sequence modelled element by element.
pub open spec fn seq_view<T: View>(s: Seq<T>) -> Seq<T::V> {
    Seq::new(s.len(), |i: int| s[i]@)
}

} // verus!
