//! A plain record of an asset in some quantity.
use vstd::prelude::*;

verus! {

/// An asset, named by a string, in some quantity.
#[derive(Debug, Clone, PartialEq)]
pub struct Bucket {
    asset_id: String,
    count: u32,
}

impl Bucket {
    pub fn new(asset_id: &str, count: u32) -> (r: Bucket)
        ensures
            r.spec_asset_id() == asset_id@,
            r.spec_count() == count,
    {
        Bucket { asset_id: asset_id.to_owned(), count }
    }

    pub closed spec fn spec_asset_id(&self) -> Seq<char> {
        self.asset_id@
    }

    pub closed spec fn spec_count(&self) -> u32 {
        self.count
    }

    pub fn asset_id(&self) -> (r: &str)
        ensures
            r@ == self.spec_asset_id(),
    {
        self.asset_id.as_str()
    }

    pub fn count(&self) -> (r: u32)
        ensures
            r == self.spec_count(),
    {
        self.count
    }
}

} // verus!
