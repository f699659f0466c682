//! What the ingress reads of the objects of a Kubernetes cluster.
use vstd::prelude::*;

verus! {

/// One label of an object.
#[derive(Clone, Debug)]
pub struct Label {
    pub key: String,
    pub value: String,
}

/// The name and the labels of an object.
#[derive(Clone, Debug)]
pub struct Metadata {
    pub name: Option<String>,
    pub labels: Vec<Label>,
}

/// An environment variable of a container.
#[derive(Clone, Debug)]
pub struct EnvVar {
    pub name: String,
    pub value: Option<String>,
}

/// A container of a pod.
#[derive(Clone, Debug)]
pub struct Container {
    pub env: Option<Vec<EnvVar>>,
}

/// What a pod is to hold.
#[derive(Clone, Debug)]
pub struct PodSpec {
    pub containers: Vec<Container>,
}

/// What a deployment is to run. The template of its pods need not say what they hold.
#[derive(Clone, Debug)]
pub struct DeploymentSpec {
    pub template: Option<PodSpec>,
}

/// How many replicas a deployment has.
#[derive(Clone, Debug)]
pub struct DeploymentStatus {
    pub replicas: Option<i32>,
    pub available_replicas: Option<i32>,
    pub ready_replicas: Option<i32>,
}

/// A deployment.
#[derive(Clone, Debug)]
pub struct Deployment {
    pub metadata: Metadata,
    pub spec: Option<DeploymentSpec>,
    pub status: Option<DeploymentStatus>,
}

/// A port of a service.
#[derive(Clone, Debug)]
pub struct ServicePort {
    pub name: Option<String>,
    pub node_port: Option<i32>,
}

/// What a service exposes.
#[derive(Clone, Debug)]
pub struct ServiceSpec {
    pub ports: Option<Vec<ServicePort>>,
}

/// A service.
#[derive(Clone, Debug)]
pub struct Service {
    pub metadata: Metadata,
    pub spec: Option<ServiceSpec>,
}

/// An object with a name and labels.
pub trait Resource {
    /// The name and the labels of the object.
    spec fn described(&self) -> Metadata;

    /// The name and the labels of the object.
    fn metadata(&self) -> (metadata: &Metadata)
        ensures
            *metadata == self.described(),
    ;
}

impl Resource for Deployment {
    open spec fn described(&self) -> Metadata {
        self.metadata
    }

    fn metadata(&self) -> (metadata: &Metadata) {
        &self.metadata
    }
}

impl Resource for Service {
    open spec fn described(&self) -> Metadata {
        self.metadata
    }

    fn metadata(&self) -> (metadata: &Metadata) {
        &self.metadata
    }
}

/// The text that may be there.
pub open spec fn text_of(text: Option<String>) -> Option<Seq<char>> {
    match text {
        Some(t) => Some(t@),
        None => None,
    }
}

/// The name of an object, or the text that stands for one that has none.
pub open spec fn name_or_error(metadata: Metadata) -> Seq<char> {
    match metadata.name {
        Some(name) => name@,
        None => "#error#"@,
    }
}

impl Metadata {
    /// The name of the object, or the text that stands for one that has none.
    pub fn name_or_error(&self) -> (name: String)
        ensures
            name@ == name_or_error(*self),
    {
        match &self.name {
            Some(name) => name.clone(),
            None => "#error#".to_string(),
        }
    }
}

/// An object goes by its name, and one without a name by a text that stands for that.
pub proof fn law_names_of_objects(metadata: Metadata, name: String)
    requires
        call_ensures(Metadata::name_or_error, (&metadata,), name),
    ensures
        metadata.name matches Some(own) ==> name@ == own@ && name_or_error(metadata) == own@,
        metadata.name is None ==> name@ == "#error#"@ && name_or_error(metadata) == "#error#"@,
{
}

/// A deployment and a service are described by their own names and labels.
pub proof fn law_objects_describe_themselves(deployment: Deployment, service: Service)
    ensures
        deployment.described() == deployment.metadata,
        service.described() == service.metadata,
{
}

} // verus!
