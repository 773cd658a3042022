//! The configuration data model: named contexts, clusters and credentials,
//! and a whole configuration file made of them.
use std::collections::HashMap;
use vstd::prelude::*;

verus! {

/// Declares serde_yaml::Value, the opaque payload of cluster and credential
/// attributes and of top-level fields outside the model; nothing is read
/// from it, it is only carried through.
#[verifier::external_type_specification]
#[verifier::external_body]
pub struct ExYamlValue(serde_yaml::Value);

/// The body of a context: which cluster and credential it pairs, and its
/// namespace (empty when unset).
#[derive(Default, Clone, PartialEq, Debug)]
pub struct Context {
    pub namespace: String,
    pub cluster: String,
    pub user: String,
}

/// A context entry with its name.
#[derive(Default, Clone, PartialEq, Debug)]
pub struct Contexts {
    pub context: Context,
    pub name: String,
}

/// Certificate-based connection attributes of a cluster.
#[derive(Default, Clone, PartialEq, Debug)]
pub struct Cluster {
    pub certificate_authority_data: String,
    pub server: String,
}

/// A cluster entry with its name; its connection attributes are kept as
/// they were read.
#[derive(Default, Clone, PartialEq, Debug)]
pub struct Clusters {
    pub cluster: HashMap<String, serde_yaml::Value>,
    pub name: String,
}

/// Certificate-based authentication attributes.
#[derive(Default, Clone, PartialEq, Debug)]
pub struct User {
    pub client_certificate_data: String,
    pub client_key_data: String,
}

/// A credential entry with its name; its attributes are kept as they were read.
#[derive(Default, Clone, PartialEq, Debug)]
pub struct Users {
    pub user: HashMap<String, serde_yaml::Value>,
    pub name: String,
}

/// One configuration file. Empty strings stand for absent fields; `extra`
/// holds the top-level fields outside the model (preferences, extensions),
/// as they were read.
#[derive(Default, Clone, PartialEq, Debug)]
pub struct KubeConfig {
    pub kind: String,
    pub api_version: String,
    pub current_context: String,
    pub contexts: Vec<Contexts>,
    pub users: Vec<Users>,
    pub clusters: Vec<Clusters>,
    pub extra: HashMap<String, serde_yaml::Value>,
}

#[verifier::ext_equal]
pub struct ContextView {
    pub namespace: Seq<char>,
    pub cluster: Seq<char>,
    pub user: Seq<char>,
}

#[verifier::ext_equal]
pub struct NamedContextView {
    pub name: Seq<char>,
    pub context: ContextView,
}

#[verifier::ext_equal]
pub struct ClusterView {
    pub certificate_authority_data: Seq<char>,
    pub server: Seq<char>,
}

#[verifier::ext_equal]
pub struct NamedClusterView {
    pub name: Seq<char>,
    pub cluster: Map<String, serde_yaml::Value>,
}

#[verifier::ext_equal]
pub struct UserView {
    pub client_certificate_data: Seq<char>,
    pub client_key_data: Seq<char>,
}

#[verifier::ext_equal]
pub struct NamedUserView {
    pub name: Seq<char>,
    pub user: Map<String, serde_yaml::Value>,
}

#[verifier::ext_equal]
pub struct KubeConfigView {
    pub kind: Seq<char>,
    pub api_version: Seq<char>,
    pub current_context: Seq<char>,
    pub contexts: Seq<NamedContextView>,
    pub users: Seq<NamedUserView>,
    pub clusters: Seq<NamedClusterView>,
    pub extra: Map<String, serde_yaml::Value>,
}

impl View for Context {
    type V = ContextView;

    open spec fn view(&self) -> ContextView {
        ContextView { namespace: self.namespace@, cluster: self.cluster@, user: self.user@ }
    }
}

impl View for Contexts {
    type V = NamedContextView;

    open spec fn view(&self) -> NamedContextView {
        NamedContextView { name: self.name@, context: self.context@ }
    }
}

impl View for Cluster {
    type V = ClusterView;

    open spec fn view(&self) -> ClusterView {
        ClusterView {
            certificate_authority_data: self.certificate_authority_data@,
            server: self.server@,
        }
    }
}

impl View for Clusters {
    type V = NamedClusterView;

    open spec fn view(&self) -> NamedClusterView {
        NamedClusterView { name: self.name@, cluster: self.cluster@ }
    }
}

impl View for User {
    type V = UserView;

    open spec fn view(&self) -> UserView {
        UserView {
            client_certificate_data: self.client_certificate_data@,
            client_key_data: self.client_key_data@,
        }
    }
}

impl View for Users {
    type V = NamedUserView;

    open spec fn view(&self) -> NamedUserView {
        NamedUserView { name: self.name@, user: self.user@ }
    }
}

pub open spec fn contexts_view(v: Seq<Contexts>) -> Seq<NamedContextView> {
    v.map_values(|c: Contexts| c@)
}

pub open spec fn clusters_view(v: Seq<Clusters>) -> Seq<NamedClusterView> {
    v.map_values(|c: Clusters| c@)
}

pub open spec fn users_view(v: Seq<Users>) -> Seq<NamedUserView> {
    v.map_values(|u: Users| u@)
}

impl View for KubeConfig {
    type V = KubeConfigView;

    open spec fn view(&self) -> KubeConfigView {
        KubeConfigView {
            kind: self.kind@,
            api_version: self.api_version@,
            current_context: self.current_context@,
            contexts: contexts_view(self.contexts@),
            users: users_view(self.users@),
            clusters: clusters_view(self.clusters@),
            extra: self.extra@,
        }
    }
}

impl Context {
    /// A field-by-field copy.
    pub fn copy(&self) -> (r: Context)
        ensures
            r@ == self@,
    {
        Context {
            namespace: self.namespace.clone(),
            cluster: self.cluster.clone(),
            user: self.user.clone(),
        }
    }
}

impl Contexts {
    /// A field-by-field copy.
    pub fn copy(&self) -> (r: Contexts)
        ensures
            r@ == self@,
    {
        Contexts { context: self.context.copy(), name: self.name.clone() }
    }
}

impl Cluster {
    /// A field-by-field copy.
    pub fn copy(&self) -> (r: Cluster)
        ensures
            r@ == self@,
    {
        Cluster {
            certificate_authority_data: self.certificate_authority_data.clone(),
            server: self.server.clone(),
        }
    }
}

impl Clusters {
    /// A field-by-field copy.
    pub fn copy(&self) -> (r: Clusters)
        ensures
            r@ == self@,
    {
        Clusters { cluster: self.cluster.clone(), name: self.name.clone() }
    }
}

impl Users {
    /// A field-by-field copy.
    pub fn copy(&self) -> (r: Users)
        ensures
            r@ == self@,
    {
        Users { user: self.user.clone(), name: self.name.clone() }
    }
}

} // verus!
