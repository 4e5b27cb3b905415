//! Stored information about deployments and namespaces.
use vstd::prelude::*;

verus! {

/// Information about a Kubernetes deployment.
#[derive(Clone, Debug)]
pub struct InfoDeploymentEntity {
    pub name: Option<String>,
    pub namespace: Option<String>,
    pub replicas: Option<i32>,
}

/// Information about a Kubernetes namespace.
#[derive(Clone, Debug)]
pub struct InfoNamespaceEntity {
    pub name: Option<String>,
    pub uid: Option<String>,
}

impl Default for InfoDeploymentEntity {
    fn default() -> (e: Self)
        ensures
            e.name is None && e.namespace is None && e.replicas is None,
    {
        InfoDeploymentEntity { name: None, namespace: None, replicas: None }
    }
}

impl Default for InfoNamespaceEntity {
    fn default() -> (e: Self)
        ensures
            e.name is None && e.uid is None,
    {
        InfoNamespaceEntity { name: None, uid: None }
    }
}

} // verus!
