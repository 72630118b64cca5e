use vstd::prelude::*;

verus! {

/// Writes the document as JSON.
#[derive(Debug, Clone)]
pub struct JsonExporter {
    out_dir: String,
}

impl JsonExporter {
    pub closed spec fn spec_out_dir(&self) -> Seq<char> {
        self.out_dir@
    }

    pub fn new(out_dir: String) -> (r: Self)
        ensures
            r.spec_out_dir() == out_dir@,
    {
        JsonExporter { out_dir }
    }

    /// The directory that the file is written to.
    pub fn out_dir(&self) -> (r: &str)
        ensures
            r@ == self.spec_out_dir(),
    {
        self.out_dir.as_str()
    }

    /// The name of the file of the document.
    pub fn document_file_name() -> (name: &'static str)
        ensures
            name@ == "document.json"@,
    {
        "document.json"
    }
}

} // verus!
