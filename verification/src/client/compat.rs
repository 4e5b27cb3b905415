//! Lists of API objects and the mappings that give default information for
//! objects whose mapping is not written yet.
use vstd::prelude::*;
use k8s_openapi::api::apps::v1::Deployment;
use crate::info::container::{InfoContainerEntity, container_empty};
use crate::info::pod::{InfoPodEntity, pod_empty};
use crate::info::small::{InfoDeploymentEntity, InfoNamespaceEntity};

verus! {

#[verifier::external_type_specification]
#[verifier::external_body]
pub struct ExPod(k8s_openapi::api::core::v1::Pod);

#[verifier::external_type_specification]
#[verifier::external_body]
pub struct ExDeployment(Deployment);

#[verifier::external_type_specification]
#[verifier::external_body]
pub struct ExNamespace(k8s_openapi::api::core::v1::Namespace);

#[verifier::external_type_specification]
#[verifier::external_body]
pub struct ExContainerStatus(k8s_openapi::api::core::v1::ContainerStatus);

/// A list of pods.
pub struct PodList {
    pub items: Vec<k8s_openapi::api::core::v1::Pod>,
}

/// A list of deployments.
pub struct DeploymentList {
    pub items: Vec<Deployment>,
}

/// A list of namespaces.
pub struct NamespaceList {
    pub items: Vec<k8s_openapi::api::core::v1::Namespace>,
}

/// Information about a deployment: every field absent (its mapping is not written yet).
pub fn map_deployment_to_info_entity(_deployment: &Deployment) -> (e: InfoDeploymentEntity)
    ensures
        e.name is None && e.namespace is None && e.replicas is None,
{
    InfoDeploymentEntity::default()
}

/// Information about a namespace: every field absent (its mapping is not written yet).
pub fn map_namespace_to_info_entity(_namespace: &k8s_openapi::api::core::v1::Namespace) -> (e: InfoNamespaceEntity)
    ensures
        e.name is None && e.uid is None,
{
    InfoNamespaceEntity::default()
}

/// Information about a deployment: every field absent.
pub fn map_deployment_to_info_deployment_entity(d: &Deployment) -> (e: InfoDeploymentEntity)
    ensures
        e.name is None && e.namespace is None && e.replicas is None,
{
    map_deployment_to_info_entity(d)
}

/// Information about a namespace: every field absent.
pub fn map_namespace_to_info_namespace_entity(ns: &k8s_openapi::api::core::v1::Namespace) -> (e: InfoNamespaceEntity)
    ensures
        e.name is None && e.uid is None,
{
    map_namespace_to_info_entity(ns)
}

/// Information about a pod: every field absent.
pub fn map_pod_to_info_pod_entity(_pod: &k8s_openapi::api::core::v1::Pod) -> (e: InfoPodEntity)
    ensures
        e == pod_empty(),
{
    InfoPodEntity::default()
}

/// Information about a container: every field absent.
pub fn map_container_status_to_info_container_entity(_cs: &k8s_openapi::api::core::v1::ContainerStatus) -> (e: InfoContainerEntity)
    ensures
        e == container_empty(),
{
    InfoContainerEntity::default()
}

} // verus!
