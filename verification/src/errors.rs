use vstd::prelude::*;

verus! {

/// A fatal error: either a name that the configuration does not know, or a
/// source/destination location that cannot be resolved. Both abort a run
/// before any copy is attempted.
#[derive(Debug)]
pub enum CpxError {
    /// A file name (given directly or through a tag's file list) is absent
    /// from the configuration's file mapping. Carries the offending name.
    ConfigLookupFailure(String),
    /// The source or destination location name is absent from the
    /// configuration's location mapping, or no such name was given at all.
    PathResolutionFailure,
}

/// The mathematical value of a [`CpxError`]: the same shape over `Seq<char>`.
pub enum CpxErrorView {
    ConfigLookupFailure(Seq<char>),
    PathResolutionFailure,
}

impl View for CpxError {
    type V = CpxErrorView;

    open spec fn view(&self) -> CpxErrorView {
        match self {
            CpxError::ConfigLookupFailure(name) => CpxErrorView::ConfigLookupFailure(name@),
            CpxError::PathResolutionFailure => CpxErrorView::PathResolutionFailure,
        }
    }
}

impl CpxError {
    /// True exactly when this error is a failed file-name lookup.
    pub fn is_config_lookup_failure(&self) -> (r: bool)
        ensures
            r == (self@ is ConfigLookupFailure),
    {
        match self {
            CpxError::ConfigLookupFailure(_) => true,
            CpxError::PathResolutionFailure => false,
        }
    }

    /// The name whose lookup failed, if this is a lookup failure.
    pub fn failed_name(&self) -> (r: Option<&String>)
        ensures
            match r {
                Some(name) => self@ == CpxErrorView::ConfigLookupFailure(name@),
                None => self@ is PathResolutionFailure,
            },
    {
        match self {
            CpxError::ConfigLookupFailure(name) => Some(name),
            CpxError::PathResolutionFailure => None,
        }
    }
}

} // verus!
