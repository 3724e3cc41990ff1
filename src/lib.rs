//! Pitch detection and note-event tracking for a live audio stream.
use vstd::prelude::*;

pub mod app_meta;
pub mod calibration;
pub mod gate;
pub mod note;
pub mod ranker;
pub mod sys;
pub mod tracker;

verus! {

/// Directory that holds the application's resources, relative to the working directory.
pub fn get_base() -> (r: String)
    ensures
        r@ == "./"@,
{
    proof {
        reveal_strlit("./");
    }
    String::from_str("./")
}

/// The resource directory inside an application bundle at `bundle_path`.
pub fn bundle_base(bundle_path: &str) -> (r: String)
    ensures
        r@ == bundle_path@ + "/Contents/Resources"@,
{
    let mut r = String::from_str(bundle_path);
    r.append("/Contents/Resources");
    r
}

} // verus!
