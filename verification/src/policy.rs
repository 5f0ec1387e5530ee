//! The measurement policy: which hash algorithm the node register uses,
//! which system processes belong to the node baseline, and whether container
//! isolation is enforced.
//!
//! The policy arrives already parsed; loading and deserialising the policy
//! file is the embedding program's concern.

use vstd::prelude::*;

use crate::text::{clone_strings, string_views};

verus! {

/// Baseline measurement policy for the node's own processes.
pub struct SystemPolicy {
    pub with_parameter: bool,
    pub configs: Vec<String>,
    pub processes: Vec<String>,
}

/// Measurement policy for Kubernetes workloads.
pub struct KubernetesPolicy {
    pub with_parameter: bool,
    pub version: Vec<String>,
    pub configs: Vec<String>,
    pub pods: Vec<String>,
}

/// Container measurement and isolation policy.
pub struct ContainerPolicy {
    pub with_parameter: bool,
    pub isolated: bool,
}

/// The three measurement sections of a policy.
pub struct MeasurePolicy {
    pub system: SystemPolicy,
    pub kubernetes: KubernetesPolicy,
    pub container: ContainerPolicy,
}

/// Mathematical value of a [`SystemPolicy`].
#[verifier::ext_equal]
pub struct SystemPolicyView {
    pub with_parameter: bool,
    pub configs: Seq<Seq<char>>,
    pub processes: Seq<Seq<char>>,
}

/// Mathematical value of a [`KubernetesPolicy`].
#[verifier::ext_equal]
pub struct KubernetesPolicyView {
    pub with_parameter: bool,
    pub version: Seq<Seq<char>>,
    pub configs: Seq<Seq<char>>,
    pub pods: Seq<Seq<char>>,
}

/// Mathematical value of a [`ContainerPolicy`].
#[verifier::ext_equal]
pub struct ContainerPolicyView {
    pub with_parameter: bool,
    pub isolated: bool,
}

/// Mathematical value of a [`PolicyConfig`].
#[verifier::ext_equal]
pub struct PolicyView {
    pub backend: Seq<char>,
    pub algorithm: Seq<char>,
    pub system: SystemPolicyView,
    pub kubernetes: KubernetesPolicyView,
    pub container: ContainerPolicyView,
}

/// The whole parsed policy.
pub struct PolicyConfig {
    backend: String,
    algorithm: String,
    measure: MeasurePolicy,
}

impl View for PolicyConfig {
    type V = PolicyView;

    closed spec fn view(&self) -> PolicyView {
        PolicyView {
            backend: self.backend@,
            algorithm: self.algorithm@,
            system: SystemPolicyView {
                with_parameter: self.measure.system.with_parameter,
                configs: string_views(self.measure.system.configs@),
                processes: string_views(self.measure.system.processes@),
            },
            kubernetes: KubernetesPolicyView {
                with_parameter: self.measure.kubernetes.with_parameter,
                version: string_views(self.measure.kubernetes.version@),
                configs: string_views(self.measure.kubernetes.configs@),
                pods: string_views(self.measure.kubernetes.pods@),
            },
            container: ContainerPolicyView {
                with_parameter: self.measure.container.with_parameter,
                isolated: self.measure.container.isolated,
            },
        }
    }
}

impl PolicyConfig {
    /// A policy from its already-parsed parts.
    pub fn new(backend: String, algorithm: String, measure: MeasurePolicy) -> (p: PolicyConfig)
        ensures
            p@ == (PolicyView {
                backend: backend@,
                algorithm: algorithm@,
                system: SystemPolicyView {
                    with_parameter: measure.system.with_parameter,
                    configs: string_views(measure.system.configs@),
                    processes: string_views(measure.system.processes@),
                },
                kubernetes: KubernetesPolicyView {
                    with_parameter: measure.kubernetes.with_parameter,
                    version: string_views(measure.kubernetes.version@),
                    configs: string_views(measure.kubernetes.configs@),
                    pods: string_views(measure.kubernetes.pods@),
                },
                container: ContainerPolicyView {
                    with_parameter: measure.container.with_parameter,
                    isolated: measure.container.isolated,
                },
            }),
    {
        PolicyConfig { backend, algorithm, measure }
    }

    /// The configured hash algorithm's name.
    pub fn get_alogrithm(&self) -> (r: String)
        ensures
            r@ == self@.algorithm,
    {
        self.algorithm.clone()
    }

    /// The system processes that belong to the node baseline.
    pub fn get_system_processes(&self) -> (r: Vec<String>)
        ensures
            string_views(r@) == self@.system.processes,
    {
        clone_strings(&self.measure.system.processes)
    }

    /// The system configuration files that belong to the node baseline.
    pub fn get_system_configs(&self) -> (r: Vec<String>)
        ensures
            string_views(r@) == self@.system.configs,
    {
        clone_strings(&self.measure.system.configs)
    }

    /// Whether system processes are measured together with their parameters.
    pub fn system_with_parameter(&self) -> (r: bool)
        ensures
            r == self@.system.with_parameter,
    {
        self.measure.system.with_parameter
    }

    /// The Kubernetes pods named by the policy.
    pub fn get_kubernetes_pods(&self) -> (r: Vec<String>)
        ensures
            string_views(r@) == self@.kubernetes.pods,
    {
        clone_strings(&self.measure.kubernetes.pods)
    }

    /// Whether Kubernetes pods are measured together with their parameters.
    pub fn kubernetes_pods_parameter(&self) -> (r: bool)
        ensures
            r == self@.kubernetes.with_parameter,
    {
        self.measure.kubernetes.with_parameter
    }

    /// Whether containers are measured together with their parameters.
    pub fn container_with_parameter(&self) -> (r: bool)
        ensures
            r == self@.container.with_parameter,
    {
        self.measure.container.with_parameter
    }

    /// Whether the container-isolation policy is in force.
    pub fn container_isolated(&self) -> (r: bool)
        ensures
            r == self@.container.isolated,
    {
        self.measure.container.isolated
    }
}

} // verus!
