//! `zipline update`: re-run the published installer to upgrade in place. The
//! installer is fetched at the installed version's immutable release tag, never
//! from the mutable `main` branch.

use vstd::prelude::*;

use crate::backend::{which, ToolSearch};
use crate::text::{chars_of, push_str, string_of};
use crate::VERSION;

verus! {

pub open spec fn spec_installer_url() -> Seq<char> {
    "https://raw.githubusercontent.com/antirubber/zipline/v"@ + VERSION@ + "/install.sh"@
}

pub open spec fn spec_installer_pipeline() -> Seq<char> {
    "set -o pipefail; curl -fsSL "@ + spec_installer_url() + " | bash"@
}

/// The installer of this very release, by its tag.
pub fn installer_url() -> (r: String)
    ensures
        r@ == spec_installer_url(),
{
    let mut s = String::new();
    push_str(&mut s, "https://raw.githubusercontent.com/antirubber/zipline/v");
    push_str(&mut s, VERSION);
    push_str(&mut s, "/install.sh");
    s
}

/// The shell pipeline that downloads and runs the installer; `pipefail` makes a
/// failed download a failure instead of feeding `bash` nothing.
pub fn installer_pipeline() -> (r: String)
    ensures
        r@ == spec_installer_pipeline(),
{
    let mut s = String::new();
    push_str(&mut s, "set -o pipefail; curl -fsSL ");
    push_str(&mut s, installer_url().as_str());
    push_str(&mut s, " | bash");
    s
}

/// An update needs `curl` and `bash` on the search path.
pub fn update_preflight(search: &ToolSearch) -> (r: Result<(), String>)
    ensures
        match r {
            Ok(()) => search.spec_find("curl"@) is Some && search.spec_find("bash"@) is Some,
            Err(e) => if search.spec_find("curl"@) is None {
                e@ == "curl is required to update; install it and try again"@
            } else {
                search.spec_find("bash"@) is None && e@
                    == "bash is required to update; install it and try again"@
            },
        },
{
    if which(search, "curl").is_none() {
        return Err(string_of(&chars_of("curl is required to update; install it and try again")));
    }
    if which(search, "bash").is_none() {
        return Err(string_of(&chars_of("bash is required to update; install it and try again")));
    }
    Ok(())
}

} // verus!
