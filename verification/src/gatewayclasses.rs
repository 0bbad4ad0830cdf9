//! The GatewayClass resource (`gateway.networking.k8s.io/v1`): the data that
//! its spec and status hold.

use vstd::prelude::*;

verus! {

/// Spec defines the desired state of GatewayClass.
#[derive(Clone, Debug)]
pub struct GatewayClassSpec {
    /// ControllerName is the name of the controller that is managing
    /// Gateways of this class. The value of this field MUST be a domain
    /// prefixed path, such as "example.net/gateway-controller". It is not
    /// mutable and cannot be empty.
    pub controller_name: String,
    /// Description helps describe a GatewayClass with more details.
    pub description: Option<String>,
    /// ParametersRef is a reference to a resource that contains the
    /// configuration parameters corresponding to the GatewayClass.
    pub parameters_ref: Option<GatewayClassParametersRef>,
}

/// A reference to a resource that contains the configuration parameters
/// corresponding to the GatewayClass: a standard Kubernetes resource, such
/// as a ConfigMap, or an implementation-specific custom resource.
#[derive(Clone, Debug)]
pub struct GatewayClassParametersRef {
    /// Group is the group of the referent.
    pub group: String,
    /// Kind is kind of the referent.
    pub kind: String,
    /// Name is the name of the referent.
    pub name: String,
    /// Namespace is the namespace of the referent. It is required for a
    /// namespace-scoped resource and MUST be unset for a cluster-scoped one.
    pub namespace: Option<String>,
}

/// Status defines the current state of GatewayClass.
#[derive(Clone, Debug)]
pub struct GatewayClassStatus {
    /// Conditions is the current status from the controller for this
    /// GatewayClass.
    pub conditions: Option<Vec<GatewayClassStatusConditions>>,
    /// SupportedFeatures is the set of features the GatewayClass supports,
    /// sorted in ascending alphabetical order.
    pub supported_features: Option<Vec<String>>,
}

/// Condition contains details for one aspect of the current state of this
/// API resource.
#[derive(Clone, Debug)]
pub struct GatewayClassStatusConditions {
    /// The last time the condition transitioned from one status to another.
    pub last_transition_time: String,
    /// A human readable message indicating details about the transition.
    pub message: String,
    /// The .metadata.generation that the condition was set based upon.
    pub observed_generation: Option<i64>,
    /// A programmatic identifier, in CamelCase, for the reason of the
    /// condition's last transition.
    pub reason: String,
    /// Status of the condition, one of True, False, Unknown.
    pub status: GatewayClassStatusConditionsStatus,
    /// Type of condition in CamelCase or in foo.example.com/CamelCase.
    pub type_: String,
}

/// The status of a condition.
#[derive(Clone, Copy, Debug, PartialEq, Eq, Structural)]
pub enum GatewayClassStatusConditionsStatus {
    True,
    False,
    Unknown,
}

} // verus!
