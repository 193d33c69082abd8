//! Directory-fixture helpers: the path arithmetic for a test's home
//! directory. Creating or removing the directory is the caller's business.

use vstd::prelude::*;

verus! {

/// The home directory path for a test, under the shared test output tree:
/// the module, then the test name, then `home`.
pub fn node_home_directory(module: &str, name: &str) -> (r: String)
    ensures
        r@ == "generated/test/"@ + module@ + "/"@ + name@ + "/home"@,
{
    let mut s = String::from_str("generated/test/");
    s.append(module);
    s.append("/");
    s.append(name);
    s.append("/home");
    s
}

} // verus!
