//! Container images as the control endpoints report them.
use vstd::prelude::*;

verus! {

/// One image: repository name, tag, creation time and size, as text.
#[derive(Clone, Debug)]
pub struct Image {
    pub name: String,
    pub tag: String,
    pub ctime: String,
    pub size: String,
}

} // verus!
