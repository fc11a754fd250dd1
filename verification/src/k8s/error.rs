use vstd::prelude::*;

verus! {

/// Why a Kubernetes object could not be summarised.
#[derive(Debug)]
pub enum NettingError {
    /// The pod has no condition of type `Ready`.
    ReadyStatusUndefined,
    /// The pod has no spec.
    PodSpecUndefined,
    /// The pod has no metadata.
    PodMetadataUndefined,
    /// The replica set has no metadata.
    ReplicaSetMetadataUndefined,
    /// The service has no spec.
    ServiceSpecUndefined,
    /// The service has no selector, so it exposes no pod.
    ServiceSelectorUndefined,
    /// The service has no metadata.
    ServiceMetadataUndefined,
    /// The Kubernetes API refused a request; the text is its message.
    Api(String),
}

/// The text that describes each error.
pub open spec fn error_message(e: NettingError) -> Seq<char> {
    match e {
        NettingError::ReadyStatusUndefined => "Ready status undefined in container"@,
        NettingError::PodSpecUndefined => "Pod spec undefined"@,
        NettingError::PodMetadataUndefined => "Pod metadata undefined"@,
        NettingError::ReplicaSetMetadataUndefined => "Replicaset metadata undefined"@,
        NettingError::ServiceSpecUndefined => "Service spec undefined"@,
        NettingError::ServiceSelectorUndefined => "No labels found in service, doesn't expose anything"@,
        NettingError::ServiceMetadataUndefined => "Service metadata undefined"@,
        NettingError::Api(m) => m@,
    }
}

/// A computed result agrees with its specification: the same error, or a
/// value whose view is the specified one.
pub open spec fn same_result<T: View>(r: Result<T, NettingError>, s: Result<T::V, NettingError>) -> bool {
    match (r, s) {
        (Ok(a), Ok(b)) => a@ == b,
        (Err(a), Err(b)) => a == b,
        _ => false,
    }
}

impl NettingError {
    /// The text that describes this error.
    pub fn message(&self) -> (m: String)
        ensures
            m@ == error_message(*self),
    {
        match self {
            NettingError::ReadyStatusUndefined => "Ready status undefined in container".to_owned(),
            NettingError::PodSpecUndefined => "Pod spec undefined".to_owned(),
            NettingError::PodMetadataUndefined => "Pod metadata undefined".to_owned(),
            NettingError::ReplicaSetMetadataUndefined => "Replicaset metadata undefined".to_owned(),
            NettingError::ServiceSpecUndefined => "Service spec undefined".to_owned(),
            NettingError::ServiceSelectorUndefined => "No labels found in service, doesn't expose anything".to_owned(),
            NettingError::ServiceMetadataUndefined => "Service metadata undefined".to_owned(),
            NettingError::Api(m) => m.clone(),
        }
    }
}

} // verus!
