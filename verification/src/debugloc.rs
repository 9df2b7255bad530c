use vstd::prelude::*;

verus! {

/// A source-location tag: line, optional column (absent on
/// function-level locations), filename, and optional directory.
#[derive(PartialEq, Eq, Clone, Debug)]
pub struct DebugLoc {
    pub line: u32,
    /// Absent for function-level source locations.
    pub col: Option<u32>,
    pub filename: String,
    pub directory: Option<String>,
}

/// The view of an optional source-location tag: the fields with strings
/// as character sequences.
#[verifier::ext_equal]
pub struct DebugLocV {
    pub line: u32,
    pub col: Option<u32>,
    pub filename: Seq<char>,
    pub directory: Option<Seq<char>>,
}

impl View for DebugLoc {
    type V = DebugLocV;

    open spec fn view(&self) -> DebugLocV {
        DebugLocV {
            line: self.line,
            col: self.col,
            filename: self.filename@,
            directory: match self.directory {
                Some(d) => Some(d@),
                None => None,
            },
        }
    }
}

/// The view of an optional source-location tag.
pub open spec fn opt_debugloc_view(o: Option<DebugLoc>) -> Option<DebugLocV> {
    match o {
        Some(d) => Some(d@),
        None => None,
    }
}

/// Copy an optional source-location tag out of the snapshot.
pub fn clone_opt_debugloc(o: &Option<DebugLoc>) -> (r: Option<DebugLoc>)
    ensures
        opt_debugloc_view(r) == opt_debugloc_view(*o),
{
    match o {
        Some(d) => Some(
            DebugLoc {
                line: d.line,
                col: match &d.col {
                    Some(c) => Some(*c),
                    None => None,
                },
                filename: d.filename.clone(),
                directory: match &d.directory {
                    Some(s) => Some(s.clone()),
                    None => None,
                },
            },
        ),
        None => None,
    }
}

} // verus!
