use vstd::prelude::*;

verus! {

/// An asset of the game: its path below the asset folder and its bytes.
#[derive(Debug)]
pub struct Asset {
    path: &'static str,
    data: &'static [u8],
}

impl Asset {
    pub fn new(path: &'static str, data: &'static [u8]) -> (res: Self)
        ensures
            res.spec_path() == path,
            res.spec_data() == data,
    {
        Asset { path, data }
    }

    pub closed spec fn spec_path(&self) -> &'static str {
        self.path
    }

    pub closed spec fn spec_data(&self) -> &'static [u8] {
        self.data
    }

    pub fn path(&self) -> (res: &'static str)
        ensures
            res == self.spec_path(),
    {
        self.path
    }

    pub fn data(&self) -> (res: &'static [u8])
        ensures
            res == self.spec_data(),
    {
        self.data
    }
}

} // verus!
