//! A plugin for trying the shared-library interface out: it reports one installed package.
use vstd::prelude::*;
use crate::text::views;

verus! {

/// The packages the plugin reports as installed: only `dummy-rs`.
pub fn list_packages() -> (r: Result<Vec<String>, String>)
    ensures
        r matches Ok(v) && views(v@) == seq!["dummy-rs"@],
{
    let mut v: Vec<String> = Vec::new();
    v.push(String::from_str("dummy-rs"));
    assert(views(v@) =~= seq!["dummy-rs"@]);
    Ok(v)
}

} // verus!
