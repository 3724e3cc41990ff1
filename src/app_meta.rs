//! Where the application's resources live, with a trailing separator.
use vstd::prelude::*;

verus! {

/// The resource directory when the program runs from its own directory.
pub fn get_base() -> (r: String)
    ensures
        r@ == "./"@,
{
    proof {
        reveal_strlit("./");
    }
    String::from_str("./")
}

/// The resource directory inside an application bundle at `bundle_path`.
pub fn bundle_base(bundle_path: &str) -> (r: String)
    ensures
        r@ == bundle_path@ + "/Contents/Resources/"@,
{
    let mut r = String::from_str(bundle_path);
    r.append("/Contents/Resources/");
    r
}

} // verus!
