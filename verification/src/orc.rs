//! ORC: the schema sits in the PostScript and Footer at the end of the file.
use vstd::prelude::*;
use crate::text::copy_str;

verus! {

pub struct OrcInspector;

impl OrcInspector {
    /// Inspecting ORC files is not offered: every request is refused.
    pub fn inspect(path: &str) -> (r: Result<crate::schema::Schema, String>)
        ensures
            r matches Err(m) && m@ == "ORC inspection is not available"@,
    {
        Err(copy_str("ORC inspection is not available"))
    }
}

} // verus!
