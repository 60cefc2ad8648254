use vstd::prelude::*;

verus! {

/// One source entry held in memory: the name it was read under and its raw
/// bytes.
#[derive(Debug, PartialEq, Eq)]
pub struct InMemoryImages {
    file_name: String,
    data: Vec<u8>,
}

impl InMemoryImages {
    pub closed spec fn spec_file_name(self) -> Seq<char> {
        self.file_name@
    }

    pub closed spec fn spec_data(self) -> Seq<u8> {
        self.data@
    }

    pub fn new(file_name: String, data: Vec<u8>) -> (r: InMemoryImages)
        ensures
            r.spec_file_name() == file_name@,
            r.spec_data() == data@,
    {
        InMemoryImages { file_name, data }
    }

    pub fn file_name(&self) -> (r: &str)
        ensures
            r@ == self.spec_file_name(),
    {
        self.file_name.as_str()
    }

    pub fn data(&self) -> (r: &Vec<u8>)
        ensures
            r@ == self.spec_data(),
    {
        &self.data
    }
}

} // verus!
