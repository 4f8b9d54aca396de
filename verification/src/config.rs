//! Deployment targets and the outward-facing base links derived from them.

use vstd::prelude::*;
use vstd::string::StringExecFns;

verus! {

/// The deployment target, selected once at startup by an environment flag.
#[derive(Clone, Copy, PartialEq, Eq, Structural, Debug)]
pub enum Env {
    Local,
    Test,
}

/// The outward-facing base link of a deployment target.  Used only for
/// derived-link construction, never for persistence.
pub open spec fn host_text(env: Env) -> Seq<char> {
    match env {
        Env::Local => "http://localhost:3000"@,
        Env::Test => "http://test.app.capi.money"@,
    }
}

/// The base link of the deployment target, as text.
pub fn frontend_host(env: &Env) -> (r: &'static str)
    ensures
        r@ == host_text(*env),
{
    match env {
        Env::Local => "http://localhost:3000",
        Env::Test => "http://test.app.capi.money",
    }
}

/// Selects the deployment target from the startup flag: `"1"` selects the
/// test target, anything else the local one.
pub fn environment_from_flag(flag: &str) -> (r: Env)
    ensures
        flag@ == "1"@ ==> r == Env::Test,
        flag@ != "1"@ ==> r == Env::Local,
{
    let f = flag.to_owned();
    let one = String::from_str("1");
    if f == one {
        Env::Test
    } else {
        Env::Local
    }
}

} // verus!
