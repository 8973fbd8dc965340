//! Page-preview metadata.  Extraction itself is plain scraping I/O and
//! lives outside the library; this is the value it produces.

use vstd::prelude::*;

verus! {

/// Open-graph style metadata of a page.
#[derive(Debug)]
pub struct OgInfo {
    pub title: Option<String>,
    pub description: Option<String>,
    pub image: Option<String>,
}

} // verus!
