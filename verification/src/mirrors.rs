//! The mirrors that a mirror list offers.

use crate::error::{Fault, InstallError};
use vstd::prelude::*;

verus! {

/// One mirror of a mirror list. Only `url` is used.
#[derive(Debug, Clone)]
pub struct Mirror {
    pub name: String,
    pub image: Option<String>,
    pub homepage: String,
    pub url: String,
    pub advertised: bool,
}

/// The address of the mirror to fetch from: that of the first mirror of
/// the list.
pub open spec fn mirror_of(mirrors: Seq<Mirror>) -> Result<Seq<char>, Fault> {
    if mirrors.len() > 0 {
        Ok(mirrors[0].url@)
    } else {
        Err(Fault::NoMirror)
    }
}

/// The address of the mirror to fetch from.
pub fn choose_mirror(mirrors: &Vec<Mirror>) -> (r: Result<&str, InstallError>)
    ensures
        match r {
            Ok(url) => mirror_of(mirrors@) == Ok::<Seq<char>, Fault>(url@),
            Err(e) => mirror_of(mirrors@) == Err::<Seq<char>, Fault>(e@),
        },
{
    if mirrors.len() > 0 {
        Ok(mirrors[0].url.as_str())
    } else {
        Err(InstallError::NoMirror)
    }
}

} // verus!
