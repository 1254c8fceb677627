//! The service identity: the (name, version) pair reported with every
//! structured record.

use vstd::prelude::*;

verus! {

/// Parameters expected by the logger, used for manual initialization.
#[derive(Clone, Debug)]
pub struct Service {
    /// Name of the service as it will be reported.
    pub name: String,
    /// Version of the service as it will be reported.
    pub version: String,
}

/// The identity as the contracts see it.
pub struct ServiceModel {
    pub name: Seq<char>,
    pub version: Seq<char>,
}

impl View for Service {
    type V = ServiceModel;

    open spec fn view(&self) -> ServiceModel {
        ServiceModel { name: self.name@, version: self.version@ }
    }
}

/// An identity is resolvable when at least one of its parts is non-empty;
/// a partially filled identity still counts.
pub open spec fn spec_resolvable(name: Seq<char>, version: Seq<char>) -> bool {
    name.len() > 0 || version.len() > 0
}

impl Service {
    /// Builds the identity from already-looked-up name and version strings
    /// (empty where the lookup found nothing).  An identity with both parts
    /// empty is not resolvable and yields `None`; any other pair is kept
    /// verbatim.
    pub fn from_parts(name: String, version: String) -> (r: Option<Service>)
        ensures
            r is Some <==> spec_resolvable(name@, version@),
            r matches Some(s) ==> s.name@ == name@ && s.version@ == version@,
    {
        if name.as_str().is_empty() && version.as_str().is_empty() {
            None
        } else {
            Some(Service { name, version })
        }
    }
}

} // verus!
