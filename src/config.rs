//! Aggregation of loaded sources with provenance, resolution of a context to
//! a minimal configuration scoped to the source that defines it, and the
//! session-cache entry that holds the result.
use crate::error::{Error, SetContextError};
use crate::paths::CACHE_MARKER;
use crate::text::{
    chars_of, contains_seq, contains_str, join_strings, join_with, lemma_split_join,
    lemma_split_on_nonempty, push_char, replace_char, replace_chars, split_on, split_on_char,
    strings_view,
};
use crate::model::{
    clusters_view, contexts_view, users_view, Clusters, ContextView, Contexts,
    KubeConfig, KubeConfigView, NamedClusterView, NamedContextView, NamedUserView, Users,
};
use std::collections::HashMap;
use vstd::prelude::*;

verus! {

/// The namespace of a context that sets none.
pub const DEFAULT_NAMESPACE: &'static str = "default";

/// All loaded sources, each with its path, and the aggregate view of them.
pub struct KubeConfigs {
    pub config: KubeConfig,
    pub configs: Vec<(KubeConfig, String)>,
}

impl KubeConfigs {
    /// The merged view is the aggregate of the sources, in order.
    pub open spec fn wf(&self) -> bool {
        self.config@ == aggregate_spec(sources_view(self.configs@))
    }
}

/// The view of a list of loaded sources.
pub open spec fn sources_view(v: Seq<(KubeConfig, String)>) -> Seq<(KubeConfigView, Seq<char>)> {
    v.map_values(|s: (KubeConfig, String)| (s.0@, s.1@))
}

/// The first index at or after `i` that holds `name`, or -1.
pub open spec fn index_from(names: Seq<Seq<char>>, name: Seq<char>, i: int) -> int
    decreases names.len() - i,
{
    if i < 0 || i >= names.len() {
        -1
    } else if names[i] == name {
        i
    } else {
        index_from(names, name, i + 1)
    }
}

/// The first index that holds `name`, or -1.
pub open spec fn first_index(names: Seq<Seq<char>>, name: Seq<char>) -> int {
    index_from(names, name, 0)
}

pub open spec fn context_names(cs: Seq<NamedContextView>) -> Seq<Seq<char>> {
    cs.map_values(|c: NamedContextView| c.name)
}

pub open spec fn cluster_names(cs: Seq<NamedClusterView>) -> Seq<Seq<char>> {
    cs.map_values(|c: NamedClusterView| c.name)
}

pub open spec fn user_names(us: Seq<NamedUserView>) -> Seq<Seq<char>> {
    us.map_values(|u: NamedUserView| u.name)
}

/// The source defines a context named `name`.
pub open spec fn defines(src: (KubeConfigView, Seq<char>), name: Seq<char>) -> bool {
    first_index(context_names(src.0.contexts), name) >= 0
}

/// The first source at or after `i` that defines `name`, or -1.
pub open spec fn owner_from(srcs: Seq<(KubeConfigView, Seq<char>)>, name: Seq<char>, i: int) -> int
    decreases srcs.len() - i,
{
    if i < 0 || i >= srcs.len() {
        -1
    } else if defines(srcs[i], name) {
        i
    } else {
        owner_from(srcs, name, i + 1)
    }
}

/// The first source that defines `name`, or -1.
pub open spec fn owner_index(srcs: Seq<(KubeConfigView, Seq<char>)>, name: Seq<char>) -> int {
    owner_from(srcs, name, 0)
}

/// The active context of the first source that declares one; empty when
/// none does.
pub open spec fn first_active(srcs: Seq<(KubeConfigView, Seq<char>)>) -> Seq<char>
    decreases srcs.len(),
{
    if srcs.len() == 0 {
        Seq::empty()
    } else {
        let earlier = first_active(srcs.drop_last());
        if earlier.len() > 0 {
            earlier
        } else {
            srcs.last().0.current_context
        }
    }
}

pub open spec fn all_contexts(srcs: Seq<(KubeConfigView, Seq<char>)>) -> Seq<NamedContextView>
    decreases srcs.len(),
{
    if srcs.len() == 0 {
        Seq::empty()
    } else {
        all_contexts(srcs.drop_last()) + srcs.last().0.contexts
    }
}

pub open spec fn all_clusters(srcs: Seq<(KubeConfigView, Seq<char>)>) -> Seq<NamedClusterView>
    decreases srcs.len(),
{
    if srcs.len() == 0 {
        Seq::empty()
    } else {
        all_clusters(srcs.drop_last()) + srcs.last().0.clusters
    }
}

pub open spec fn all_users(srcs: Seq<(KubeConfigView, Seq<char>)>) -> Seq<NamedUserView>
    decreases srcs.len(),
{
    if srcs.len() == 0 {
        Seq::empty()
    } else {
        all_users(srcs.drop_last()) + srcs.last().0.users
    }
}

/// The aggregate of the sources in order: their entries laid end to end and
/// the first declared active context.
pub open spec fn aggregate_spec(srcs: Seq<(KubeConfigView, Seq<char>)>) -> KubeConfigView {
    KubeConfigView {
        kind: Seq::empty(),
        api_version: Seq::empty(),
        current_context: first_active(srcs),
        contexts: all_contexts(srcs),
        users: all_users(srcs),
        clusters: all_clusters(srcs),
        extra: Map::empty(),
    }
}

/// What resolving a context gives: the minimal configuration, or which
/// entry was missing.
pub enum Resolution {
    Found(KubeConfigView),
    NoContext(Seq<char>),
    NoCluster(Seq<char>, Seq<char>),
    NoCredential(Seq<char>, Seq<char>),
}

/// The view of an outcome of resolving a context.
pub open spec fn resolution_of(r: Result<KubeConfig, SetContextError>) -> Resolution {
    match r {
        Ok(m) => Resolution::Found(m@),
        Err(SetContextError::KubeContextNotFound { ctx }) => Resolution::NoContext(ctx@),
        Err(SetContextError::ClusterNotFound { ctx, cluster }) => Resolution::NoCluster(
            ctx@,
            cluster@,
        ),
        Err(SetContextError::CredentialNotFound { ctx, user }) => Resolution::NoCredential(
            ctx@,
            user@,
        ),
    }
}

pub open spec fn opt_view(o: Option<&str>) -> Option<Seq<char>> {
    match o {
        Some(s) => Some(s@),
        None => None,
    }
}

/// The namespace of the minimal configuration: the one asked for, else the
/// context's own, else the default one.
pub open spec fn final_namespace(asked: Option<Seq<char>>, own: Seq<char>) -> Seq<char> {
    match asked {
        Some(ns) => ns,
        None => if own.len() > 0 {
            own
        } else {
            DEFAULT_NAMESPACE@
        },
    }
}

/// The configuration made of exactly one context, with namespace `ns`, and
/// the cluster and credential it references; its active context is that
/// context.
pub open spec fn minimal_spec(
    sel: NamedContextView,
    ns: Seq<char>,
    cluster: NamedClusterView,
    user: NamedUserView,
) -> KubeConfigView {
    KubeConfigView {
        kind: Seq::empty(),
        api_version: Seq::empty(),
        current_context: sel.name,
        contexts: seq![
            NamedContextView {
                name: sel.name,
                context: ContextView {
                    namespace: ns,
                    cluster: sel.context.cluster,
                    user: sel.context.user,
                },
            },
        ],
        users: seq![user],
        clusters: seq![cluster],
        extra: Map::empty(),
    }
}

/// The minimal configuration for `sel`, with the cluster and credential it
/// names looked up (first match) in `cfg` alone.
pub open spec fn build_spec(
    sel: NamedContextView,
    asked: Option<Seq<char>>,
    cfg: KubeConfigView,
) -> Resolution {
    let ci = first_index(cluster_names(cfg.clusters), sel.context.cluster);
    let ui = first_index(user_names(cfg.users), sel.context.user);
    if ci < 0 {
        Resolution::NoCluster(sel.name, sel.context.cluster)
    } else if ui < 0 {
        Resolution::NoCredential(sel.name, sel.context.user)
    } else {
        Resolution::Found(
            minimal_spec(
                sel,
                final_namespace(asked, sel.context.namespace),
                cfg.clusters[ci],
                cfg.users[ui],
            ),
        )
    }
}

/// The namespace asked for: the override when given, else the one a prior
/// session-cache entry recorded.
pub open spec fn asked_namespace(ns: Option<Seq<char>>, cached: Option<Seq<char>>) -> Option<
    Seq<char>,
> {
    match ns {
        Some(n) => Some(n),
        None => cached,
    }
}

/// Resolving `name`: the first source that defines it, its first context of
/// that name, and the minimal configuration built within that source.
pub open spec fn resolve_spec(
    srcs: Seq<(KubeConfigView, Seq<char>)>,
    name: Seq<char>,
    ns: Option<Seq<char>>,
    cached: Option<Seq<char>>,
) -> Resolution {
    let k = owner_index(srcs, name);
    if k < 0 {
        Resolution::NoContext(name)
    } else {
        let cfg = srcs[k].0;
        build_spec(
            cfg.contexts[first_index(context_names(cfg.contexts), name)],
            asked_namespace(ns, cached),
            cfg,
        )
    }
}

pub proof fn lemma_index_from(names: Seq<Seq<char>>, name: Seq<char>, i: int)
    requires
        0 <= i,
    ensures
        index_from(names, name, i) >= 0 ==> i <= index_from(names, name, i) < names.len()
            && names[index_from(names, name, i)] == name,
        index_from(names, name, i) < 0 ==> index_from(names, name, i) == -1,
        forall|j: int| i <= j < index_from(names, name, i) ==> names[j] != name,
        index_from(names, name, i) < 0 ==> forall|j: int| i <= j < names.len() ==> names[j] != name,
    decreases names.len() - i,
{
    if i < names.len() && names[i] != name {
        lemma_index_from(names, name, i + 1);
    }
}

pub proof fn lemma_owner_from(srcs: Seq<(KubeConfigView, Seq<char>)>, name: Seq<char>, i: int)
    requires
        0 <= i,
    ensures
        owner_from(srcs, name, i) >= 0 ==> i <= owner_from(srcs, name, i) < srcs.len()
            && defines(srcs[owner_from(srcs, name, i)], name),
        owner_from(srcs, name, i) < 0 ==> owner_from(srcs, name, i) == -1,
        forall|j: int| i <= j < owner_from(srcs, name, i) ==> !defines(srcs[j], name),
        owner_from(srcs, name, i) < 0 ==> forall|j: int|
            i <= j < srcs.len() ==> !defines(#[trigger] srcs[j], name),
    decreases srcs.len() - i,
{
    if i < srcs.len() && !defines(srcs[i], name) {
        lemma_owner_from(srcs, name, i + 1);
    }
}

/// The index of the first context named `name`.
pub(crate) fn find_context(v: &Vec<Contexts>, name: &String) -> (r: Option<usize>)
    ensures
        match r {
            Some(i) => i as int == first_index(context_names(contexts_view(v@)), name@),
            None => first_index(context_names(contexts_view(v@)), name@) == -1,
        },
{
    let ghost names = context_names(contexts_view(v@));
    let mut i: usize = 0;
    while i < v.len()
        invariant
            i <= v@.len(),
            names == context_names(contexts_view(v@)),
            index_from(names, name@, i as int) == index_from(names, name@, 0),
        decreases v.len() - i,
    {
        if v[i].name == *name {
            return Some(i);
        }
        i += 1;
    }
    None
}

/// The index of the first cluster named `name`.
fn find_cluster(v: &Vec<Clusters>, name: &String) -> (r: Option<usize>)
    ensures
        match r {
            Some(i) => i as int == first_index(cluster_names(clusters_view(v@)), name@),
            None => first_index(cluster_names(clusters_view(v@)), name@) == -1,
        },
{
    let ghost names = cluster_names(clusters_view(v@));
    let mut i: usize = 0;
    while i < v.len()
        invariant
            i <= v@.len(),
            names == cluster_names(clusters_view(v@)),
            index_from(names, name@, i as int) == index_from(names, name@, 0),
        decreases v.len() - i,
    {
        if v[i].name == *name {
            return Some(i);
        }
        i += 1;
    }
    None
}

/// The index of the first credential named `name`.
fn find_user(v: &Vec<Users>, name: &String) -> (r: Option<usize>)
    ensures
        match r {
            Some(i) => i as int == first_index(user_names(users_view(v@)), name@),
            None => first_index(user_names(users_view(v@)), name@) == -1,
        },
{
    let ghost names = user_names(users_view(v@));
    let mut i: usize = 0;
    while i < v.len()
        invariant
            i <= v@.len(),
            names == user_names(users_view(v@)),
            index_from(names, name@, i as int) == index_from(names, name@, 0),
        decreases v.len() - i,
    {
        if v[i].name == *name {
            return Some(i);
        }
        i += 1;
    }
    None
}

/// The index of the first source that defines a context named `name`.
fn find_owner(v: &Vec<(KubeConfig, String)>, name: &String) -> (r: Option<usize>)
    ensures
        match r {
            Some(i) => i as int == owner_index(sources_view(v@), name@),
            None => owner_index(sources_view(v@), name@) == -1,
        },
{
    let ghost srcs = sources_view(v@);
    let mut i: usize = 0;
    while i < v.len()
        invariant
            i <= v@.len(),
            srcs == sources_view(v@),
            owner_from(srcs, name@, i as int) == owner_from(srcs, name@, 0),
        decreases v.len() - i,
    {
        let found = find_context(&v[i].0.contexts, name);
        assert(srcs[i as int].0.contexts == contexts_view(v@[i as int].0.contexts@));
        if found.is_some() {
            return Some(i);
        }
        i += 1;
    }
    None
}

/// The minimal configuration for `selected` with the cluster and credential
/// it names looked up in `kubeconfig`, the one source that holds `selected`.
fn build_in(selected: &Contexts, namespace: Option<&str>, kubeconfig: &KubeConfig) -> (r: Result<
    KubeConfig,
    SetContextError,
>)
    ensures
        resolution_of(r) == build_spec(selected@, opt_view(namespace), kubeconfig@),
{
    let ci = find_cluster(&kubeconfig.clusters, &selected.context.cluster);
    let ui = find_user(&kubeconfig.users, &selected.context.user);
    proof {
        lemma_index_from(cluster_names(kubeconfig@.clusters), selected@.context.cluster, 0);
        lemma_index_from(user_names(kubeconfig@.users), selected@.context.user, 0);
    }
    match ci {
        None => Err(
            SetContextError::ClusterNotFound {
                ctx: selected.name.clone(),
                cluster: selected.context.cluster.clone(),
            },
        ),
        Some(c) => match ui {
            None => Err(
                SetContextError::CredentialNotFound {
                    ctx: selected.name.clone(),
                    user: selected.context.user.clone(),
                },
            ),
            Some(u) => {
                let ns = match namespace {
                    Some(n) => n.to_owned(),
                    None => if !selected.context.namespace.as_str().is_empty() {
                        selected.context.namespace.clone()
                    } else {
                        DEFAULT_NAMESPACE.to_owned()
                    },
                };
                let mut contexts: Vec<Contexts> = Vec::new();
                contexts.push(
                    Contexts {
                        context: crate::model::Context {
                            namespace: ns,
                            cluster: selected.context.cluster.clone(),
                            user: selected.context.user.clone(),
                        },
                        name: selected.name.clone(),
                    },
                );
                let mut clusters: Vec<Clusters> = Vec::new();
                clusters.push(kubeconfig.clusters[c].copy());
                let mut users: Vec<Users> = Vec::new();
                users.push(kubeconfig.users[u].copy());
                let m = KubeConfig {
                    kind: String::new(),
                    api_version: String::new(),
                    current_context: selected.name.clone(),
                    contexts,
                    users,
                    clusters,
                    extra: HashMap::new(),
                };
                assert(m@ =~= minimal_spec(
                    selected@,
                    final_namespace(opt_view(namespace), selected@.context.namespace),
                    kubeconfig@.clusters[c as int],
                    kubeconfig@.users[u as int],
                ));
                Ok(m)
            },
        },
    }
}

fn append_contexts(out: &mut Vec<Contexts>, v: &Vec<Contexts>)
    ensures
        contexts_view(final(out)@) == contexts_view(old(out)@) + contexts_view(v@),
{
    let ghost start = contexts_view(out@);
    let mut i: usize = 0;
    while i < v.len()
        invariant
            i <= v@.len(),
            contexts_view(out@) == start + contexts_view(v@.subrange(0, i as int)),
        decreases v.len() - i,
    {
        let ghost before = out@;
        let c = v[i].copy();
        out.push(c);
        assert(contexts_view(out@) =~= contexts_view(before).push(c@));
        assert(contexts_view(v@.subrange(0, i + 1)) =~= contexts_view(v@.subrange(0, i as int)).push(v@[i as int]@));
        i += 1;
        assert(contexts_view(out@) =~= start + contexts_view(v@.subrange(0, i as int)));
    }
    assert(v@.subrange(0, i as int) =~= v@);
}

fn append_clusters(out: &mut Vec<Clusters>, v: &Vec<Clusters>)
    ensures
        clusters_view(final(out)@) == clusters_view(old(out)@) + clusters_view(v@),
{
    let ghost start = clusters_view(out@);
    let mut i: usize = 0;
    while i < v.len()
        invariant
            i <= v@.len(),
            clusters_view(out@) == start + clusters_view(v@.subrange(0, i as int)),
        decreases v.len() - i,
    {
        let ghost before = out@;
        let c = v[i].copy();
        out.push(c);
        assert(clusters_view(out@) =~= clusters_view(before).push(c@));
        assert(clusters_view(v@.subrange(0, i + 1)) =~= clusters_view(v@.subrange(0, i as int)).push(v@[i as int]@));
        i += 1;
        assert(clusters_view(out@) =~= start + clusters_view(v@.subrange(0, i as int)));
    }
    assert(v@.subrange(0, i as int) =~= v@);
}

fn append_users(out: &mut Vec<Users>, v: &Vec<Users>)
    ensures
        users_view(final(out)@) == users_view(old(out)@) + users_view(v@),
{
    let ghost start = users_view(out@);
    let mut i: usize = 0;
    while i < v.len()
        invariant
            i <= v@.len(),
            users_view(out@) == start + users_view(v@.subrange(0, i as int)),
        decreases v.len() - i,
    {
        let ghost before = out@;
        let c = v[i].copy();
        out.push(c);
        assert(users_view(out@) =~= users_view(before).push(c@));
        assert(users_view(v@.subrange(0, i + 1)) =~= users_view(v@.subrange(0, i as int)).push(v@[i as int]@));
        i += 1;
        assert(users_view(out@) =~= start + users_view(v@.subrange(0, i as int)));
    }
    assert(v@.subrange(0, i as int) =~= v@);
}

/// Aggregates the loaded sources, in order, into one view. Every entry of
/// every source is kept in order, duplicates included; the active context is
/// that of the first source that declares one. The sources themselves stay
/// available, with their paths, for lookups scoped to one source.
pub fn aggregate(sources: Vec<(KubeConfig, String)>) -> (r: KubeConfigs)
    ensures
        r.config@ == aggregate_spec(sources_view(sources@)),
        r.configs@ == sources@,
        r.wf(),
{
    let mut config = KubeConfig {
        kind: String::new(),
        api_version: String::new(),
        current_context: String::new(),
        contexts: Vec::new(),
        users: Vec::new(),
        clusters: Vec::new(),
        extra: HashMap::new(),
    };
    let mut i: usize = 0;
    assert(config@ =~= aggregate_spec(sources_view(sources@.subrange(0, 0))));
    while i < sources.len()
        invariant
            i <= sources@.len(),
            config@ == aggregate_spec(sources_view(sources@.subrange(0, i as int))),
        decreases sources.len() - i,
    {
        let ghost pre = sources_view(sources@.subrange(0, i as int));
        let ghost cur = sources_view(sources@.subrange(0, i + 1));
        assert(cur.drop_last() =~= pre);
        assert(cur.last() == (sources@[i as int].0@, sources@[i as int].1@));
        let src = &sources[i].0;
        if config.current_context.as_str().is_empty() {
            config.current_context = src.current_context.clone();
        }
        append_contexts(&mut config.contexts, &src.contexts);
        append_clusters(&mut config.clusters, &src.clusters);
        append_users(&mut config.users, &src.users);
        i += 1;
        assert(config@ =~= aggregate_spec(cur));
    }
    assert(sources@.subrange(0, i as int) =~= sources@);
    KubeConfigs { config, configs: sources }
}

/// A minimal configuration and the session-cache file it belongs in.
pub struct CacheEntry {
    pub path: String,
    pub config: KubeConfig,
}

/// The view of an outcome that carries a cache entry.
pub open spec fn entry_result(r: Result<CacheEntry, SetContextError>) -> Resolution {
    match r {
        Ok(e) => Resolution::Found(e.config@),
        Err(err) => resolution_of(Err(err)),
    }
}

/// The cache file name of a context and its namespace.
pub open spec fn cache_file_name(ctx: Seq<char>, ns: Seq<char>) -> Seq<char> {
    ctx + seq!['_'] + ns
}

/// One segment of a cache name made safe: `:` and `/` become `_`, and a
/// segment that is then `.` or `..` has its dots turned into `_`.
pub open spec fn clean_segment(seg: Seq<char>) -> Seq<char> {
    let s = seg.map_values(|c: char| if c == ':' || c == '/' { '_' } else { c });
    if s == seq!['.'] || s == seq!['.', '.'] {
        replace_char(s, '.', '_')
    } else {
        s
    }
}

/// A cache name with each of its `/`-separated segments made safe.
pub open spec fn clean_name(filename: Seq<char>) -> Seq<char> {
    join_with(split_on(filename, '/').map_values(|p: Seq<char>| clean_segment(p)), seq!['/'])
}

/// Where `filename` lies under the cache root `dest`: what precedes its last
/// slash gives sub-directories, each segment made safe.
pub open spec fn cache_path_spec(filename: Seq<char>, dest: Seq<char>) -> Seq<char> {
    dest + seq!['/'] + clean_name(filename)
}

/// A path segment that leads nowhere or upwards.
pub open spec fn is_dot_segment(seg: Seq<char>) -> bool {
    seg == seq!['.'] || seg == seq!['.', '.']
}

proof fn lemma_clean_segment(seg: Seq<char>)
    ensures
        !is_dot_segment(clean_segment(seg)),
        forall|j: int| 0 <= j < clean_segment(seg).len() ==> #[trigger] clean_segment(seg)[j] != '/',
{
    let s = seg.map_values(|c: char| if c == ':' || c == '/' { '_' } else { c });
    assert(forall|j: int| 0 <= j < s.len() ==> #[trigger] s[j] != '/');
    if s == seq!['.'] || s == seq!['.', '.'] {
        let t = replace_char(s, '.', '_');
        assert(t[0] == '_');
        assert(t[0] != seq!['.'][0]);
        assert(t != seq!['.']);
        assert(t != seq!['.', '.']);
    }
}

/// Makes one segment of a cache name safe.
fn clean_segment_of(seg: &str) -> (r: String)
    ensures
        r@ == clean_segment(seg@),
{
    let chars = chars_of(seg);
    let ghost mapped = seg@.map_values(|c: char| if c == ':' || c == '/' { '_' } else { c });
    let mut out = String::new();
    let mut i: usize = 0;
    while i < chars.len()
        invariant
            chars@ == seg@,
            i <= chars@.len(),
            mapped == seg@.map_values(|c: char| if c == ':' || c == '/' { '_' } else { c }),
            out@ == mapped.subrange(0, i as int),
        decreases chars.len() - i,
    {
        let c = chars[i];
        if c == ':' || c == '/' {
            push_char(&mut out, '_');
        } else {
            push_char(&mut out, c);
        }
        i += 1;
        assert(out@ =~= mapped.subrange(0, i as int));
    }
    assert(out@ =~= mapped);
    let n = chars.len();
    let dots = (n == 1 && chars[0] == '.') || (n == 2 && chars[0] == '.' && chars[1] == '.');
    if dots {
        if n == 1 {
            assert(mapped =~= seq!['.']);
        } else {
            assert(mapped =~= seq!['.', '.']);
        }
        replace_chars(out.as_str(), '.', '_')
    } else {
        proof {
            if mapped == seq!['.'] {
                assert(mapped[0] == '.');
            }
            if mapped == seq!['.', '.'] {
                assert(mapped[0] == '.' && mapped[1] == '.');
            }
        }
        out
    }
}

/// The cache path of a minimal configuration, from its context's name and
/// namespace.
pub open spec fn entry_path_spec(m: KubeConfigView, dest: Seq<char>) -> Seq<char> {
    cache_path_spec(cache_file_name(m.current_context, m.contexts[0].context.namespace), dest)
}

/// The file under the cache root `dest` that holds the cache entry named
/// `filename`. What precedes the last slash of the name gives
/// sub-directories; in every segment `:` becomes `_` (so
/// `arn:aws:eks:region:id:cluster/prod` gives the sub-directory
/// `arn_aws_eks_region_id_cluster`), and a segment `.` or `..` has its dots
/// turned into `_`. No segment after the root is `.` or `..`, so no name
/// leads out of `dest`.
pub fn get_path(filename: &str, dest: &str) -> (r: String)
    ensures
        r@ == cache_path_spec(filename@, dest@),
        r@ == dest@ + seq!['/'] + clean_name(filename@),
        forall|i: int|
            0 <= i < split_on(clean_name(filename@), '/').len() ==> !is_dot_segment(
                #[trigger] split_on(clean_name(filename@), '/')[i],
            ),
{
    let parts = split_on_char(filename, '/');
    let ghost pv = split_on(filename@, '/');
    let mut cleaned: Vec<String> = Vec::new();
    let mut i: usize = 0;
    while i < parts.len()
        invariant
            strings_view(parts@) == pv,
            pv == split_on(filename@, '/'),
            i <= parts@.len(),
            strings_view(cleaned@) == pv.subrange(0, i as int).map_values(
                |p: Seq<char>| clean_segment(p),
            ),
        decreases parts.len() - i,
    {
        let ghost before = cleaned@;
        let c = clean_segment_of(parts[i].as_str());
        cleaned.push(c);
        assert(strings_view(cleaned@) =~= strings_view(before).push(c@));
        i += 1;
        assert(strings_view(cleaned@) =~= pv.subrange(0, i as int).map_values(
            |p: Seq<char>| clean_segment(p),
        ));
    }
    assert(pv.subrange(0, i as int) =~= pv);
    let ghost segs = pv.map_values(|p: Seq<char>| clean_segment(p));
    proof {
        reveal_strlit("/");
        lemma_split_on_nonempty(filename@, '/');
        assert forall|a: int, b: int| 0 <= a < segs.len() && 0 <= b < segs[a].len() implies #[trigger] segs[a][b] != '/' by {
            lemma_clean_segment(pv[a]);
        }
        lemma_split_join(segs, '/');
        assert forall|a: int| 0 <= a < segs.len() implies !is_dot_segment(#[trigger] segs[a]) by {
            lemma_clean_segment(pv[a]);
        }
    }
    assert("/"@ =~= seq!['/']);
    let name = join_strings(&cleaned, "/");
    let mut path = dest.to_owned();
    path.append("/");
    path.append(name.as_str());
    assert(path@ =~= cache_path_spec(filename@, dest@));
    path
}

/// The cache entry for a minimal configuration.
fn into_entry(m: KubeConfig, dest: &str) -> (e: CacheEntry)
    requires
        m@.contexts.len() == 1,
    ensures
        e.config@ == m@,
        e.path@ == entry_path_spec(m@, dest@),
{
    let mut filename = m.current_context.clone();
    filename.append("_");
    filename.append(m.contexts[0].context.namespace.as_str());
    proof {
        reveal_strlit("_");
    }
    assert(filename@ =~= cache_file_name(m@.current_context, m@.contexts[0].context.namespace));
    let path = get_path(filename.as_str(), dest);
    CacheEntry { path, config: m }
}

/// Building the minimal configuration for `sel` over the sources: the
/// source that owns a context of that name is the one whose clusters and
/// credentials are looked up.
pub open spec fn build_owned_spec(
    sel: NamedContextView,
    asked: Option<Seq<char>>,
    srcs: Seq<(KubeConfigView, Seq<char>)>,
) -> Resolution {
    let k = owner_index(srcs, sel.name);
    if k < 0 {
        Resolution::NoContext(sel.name)
    } else {
        build_spec(sel, asked, srcs[k].0)
    }
}

/// Builds the minimal configuration for the context `selected`: that
/// context, with the namespace `namespace` when given (else its own, else the
/// default one), and the cluster and credential it names, each the first of
/// that name in the source of `configs` that owns a context named as
/// `selected` (the first source that defines one). Entries of other sources
/// are never taken, whatever their names. Fails when no source owns the name
/// or the owning source lacks the cluster or the credential.
pub fn build(selected: &Contexts, namespace: Option<&str>, configs: &KubeConfigs) -> (r: Result<
    KubeConfig,
    SetContextError,
>)
    ensures
        resolution_of(r) == build_owned_spec(
            selected@,
            opt_view(namespace),
            sources_view(configs.configs@),
        ),
{
    let ghost srcs = sources_view(configs.configs@);
    proof {
        lemma_owner_from(srcs, selected@.name, 0);
    }
    match find_owner(&configs.configs, &selected.name) {
        None => Err(SetContextError::KubeContextNotFound { ctx: selected.name.clone() }),
        Some(k) => {
            assert(srcs[k as int].0 == configs.configs@[k as int].0@);
            build_in(selected, namespace, &configs.configs[k].0)
        },
    }
}

/// Builds the minimal configuration for `ctx` (see [`build`]) together with
/// the cache file under `dest` that it belongs in.
pub fn write(ctx: &Contexts, namespace: Option<&str>, dest: &str, configs: &KubeConfigs) -> (r:
    Result<CacheEntry, SetContextError>)
    ensures
        entry_result(r) == build_owned_spec(
            ctx@,
            opt_view(namespace),
            sources_view(configs.configs@),
        ),
        r is Ok ==> r->Ok_0.path@ == entry_path_spec(r->Ok_0.config@, dest@),
{
    match build(ctx, namespace, configs) {
        Ok(m) => Ok(into_entry(m, dest)),
        Err(e) => Err(e),
    }
}

/// Resolves the context `name` against the sources of `configs`: the first
/// source that defines it owns it, the first context of that name there is
/// taken, and its cluster and credential are looked up in that source alone.
/// The namespace is `namespace` when given, else `cached`, else the
/// context's own, else the default one.
pub fn resolve(configs: &KubeConfigs, name: &str, namespace: Option<&str>, cached: Option<&str>) -> (r:
    Result<KubeConfig, SetContextError>)
    ensures
        resolution_of(r) == resolve_spec(
            sources_view(configs.configs@),
            name@,
            opt_view(namespace),
            opt_view(cached),
        ),
{
    let n = name.to_owned();
    let ghost srcs = sources_view(configs.configs@);
    match find_owner(&configs.configs, &n) {
        None => Err(SetContextError::KubeContextNotFound { ctx: n }),
        Some(k) => {
            proof {
                lemma_owner_from(srcs, name@, 0);
                lemma_index_from(context_names(srcs[k as int].0.contexts), name@, 0);
            }
            let src = &configs.configs[k].0;
            assert(srcs[k as int].0 == src@);
            match find_context(&src.contexts, &n) {
                None => {
                    assert(false);
                    Err(SetContextError::KubeContextNotFound { ctx: n })
                },
                Some(i) => {
                    let asked = match namespace {
                        Some(ns) => Some(ns),
                        None => cached,
                    };
                    assert(opt_view(asked) == asked_namespace(
                        opt_view(namespace),
                        opt_view(cached),
                    ));
                    build_in(&src.contexts[i], asked, src)
                },
            }
        },
    }
}

/// The path of the one source that defines the context `name`: the first
/// source, in load order, that holds a context of that name.
pub fn locate_owner(configs: &KubeConfigs, name: &str) -> (r: Result<String, SetContextError>)
    ensures
        owner_index(sources_view(configs.configs@), name@) < 0 <==> r is Err,
        r is Err ==> resolution_of(Err(r->Err_0)) == Resolution::NoContext(name@),
        r is Ok ==> r->Ok_0@ == sources_view(configs.configs@)[owner_index(
            sources_view(configs.configs@),
            name@,
        )].1,
{
    let n = name.to_owned();
    proof {
        lemma_owner_from(sources_view(configs.configs@), name@, 0);
    }
    match find_owner(&configs.configs, &n) {
        None => Err(SetContextError::KubeContextNotFound { ctx: n }),
        Some(k) => Ok(configs.configs[k].1.clone()),
    }
}

/// Resolves `ctx` with no namespace override (see [`resolve`]) and gives the
/// cache entry under `dest` that holds the result.
pub fn set_context(ctx: &str, dest: &str, configs: &KubeConfigs, cached: Option<&str>) -> (r:
    Result<CacheEntry, SetContextError>)
    ensures
        entry_result(r) == resolve_spec(
            sources_view(configs.configs@),
            ctx@,
            None,
            opt_view(cached),
        ),
        r is Ok ==> r->Ok_0.path@ == entry_path_spec(r->Ok_0.config@, dest@),
{
    match resolve(configs, ctx, None, cached) {
        Ok(m) => Ok(into_entry(m, dest)),
        Err(e) => Err(e),
    }
}

/// Resolves `ctx` with the namespace `selection` (see [`resolve`]) and gives
/// the cache entry under `dest` that holds the result.
pub fn set_namespace(ctx: &str, selection: &str, dest: &str, configs: &KubeConfigs) -> (r: Result<
    CacheEntry,
    SetContextError,
>)
    ensures
        entry_result(r) == resolve_spec(
            sources_view(configs.configs@),
            ctx@,
            Some(selection@),
            None,
        ),
        r is Ok ==> r->Ok_0.path@ == entry_path_spec(r->Ok_0.config@, dest@),
{
    match resolve(configs, ctx, Some(selection), None) {
        Ok(m) => Ok(into_entry(m, dest)),
        Err(e) => Err(e),
    }
}

/// The file content to write over a cache file that held `prior`: the fresh
/// configuration, keeping the prior schema markers where it had them and the
/// prior top-level fields outside the model.
pub open spec fn merge_spec(prior: Option<KubeConfigView>, fresh: KubeConfigView) -> KubeConfigView {
    match prior {
        Some(p) => KubeConfigView {
            kind: if p.kind.len() > 0 {
                p.kind
            } else {
                fresh.kind
            },
            api_version: if p.api_version.len() > 0 {
                p.api_version
            } else {
                fresh.api_version
            },
            extra: p.extra,
            ..fresh
        },
        None => fresh,
    }
}

pub open spec fn opt_config_view(o: Option<KubeConfig>) -> Option<KubeConfigView> {
    match o {
        Some(c) => Some(c@),
        None => None,
    }
}

/// Merges the fresh configuration into what the cache file held before
/// (`prior`, `None` when there was no file): every entry and the active
/// context come from `fresh`; the schema markers of `prior` are kept where
/// they were set, and so are its top-level fields outside the model
/// (preferences, extensions), which a minimal configuration does not set.
pub fn merge(prior: Option<KubeConfig>, fresh: KubeConfig) -> (r: KubeConfig)
    ensures
        r@ == merge_spec(opt_config_view(prior), fresh@),
{
    match prior {
        None => fresh,
        Some(p) => {
            let kind = if !p.kind.as_str().is_empty() {
                p.kind
            } else {
                fresh.kind
            };
            let api_version = if !p.api_version.as_str().is_empty() {
                p.api_version
            } else {
                fresh.api_version
            };
            let r = KubeConfig {
                kind,
                api_version,
                current_context: fresh.current_context,
                contexts: fresh.contexts,
                users: fresh.users,
                clusters: fresh.clusters,
                extra: p.extra,
            };
            assert(r@ =~= merge_spec(opt_config_view(Some(p)), fresh@));
            r
        },
    }
}

/// The namespace that the current session's cache file records for `name`:
/// only when the first source is a session-cache file and its first context
/// of that name sets a namespace.
pub open spec fn cached_namespace_spec(srcs: Seq<(KubeConfigView, Seq<char>)>, name: Seq<char>) -> Option<
    Seq<char>,
> {
    if srcs.len() > 0 && contains_seq(srcs[0].1, CACHE_MARKER@) {
        let cs = srcs[0].0.contexts;
        let i = first_index(context_names(cs), name);
        if i >= 0 && cs[i].context.namespace.len() > 0 {
            Some(cs[i].context.namespace)
        } else {
            None
        }
    } else {
        None
    }
}

/// The namespace that a prior session switch recorded for `name`, read from
/// the session-cache file that leads the sources of `session`.
pub fn cached_namespace(session: &KubeConfigs, name: &str) -> (r: Option<String>)
    ensures
        opt_string_view(r) == cached_namespace_spec(sources_view(session.configs@), name@),
{
    if session.configs.len() == 0 {
        return None;
    }
    let first = &session.configs[0];
    if !contains_str(first.1.as_str(), CACHE_MARKER) {
        return None;
    }
    let n = name.to_owned();
    proof {
        lemma_index_from(context_names(contexts_view(first.0.contexts@)), name@, 0);
    }
    match find_context(&first.0.contexts, &n) {
        None => None,
        Some(i) => {
            let ns = &first.0.contexts[i].context.namespace;
            if ns.as_str().is_empty() {
                None
            } else {
                Some(ns.clone())
            }
        },
    }
}

pub open spec fn opt_string_view(o: Option<String>) -> Option<Seq<char>> {
    match o {
        Some(s) => Some(s@),
        None => None,
    }
}

/// The sources that loaded, in order, with their paths.
pub open spec fn loaded_sources(loads: Seq<(Result<KubeConfig, String>, String)>) -> Seq<
    (KubeConfig, String),
>
    decreases loads.len(),
{
    if loads.len() == 0 {
        Seq::empty()
    } else {
        let earlier = loaded_sources(loads.drop_last());
        match loads.last().0 {
            Ok(c) => earlier.push((c, loads.last().1)),
            Err(_) => earlier,
        }
    }
}

/// Aggregates the outcome of loading each source path, in order (see
/// [`aggregate`]). A source that failed to load is skipped; only when it was
/// the one source is the failure returned.
pub fn get(loads: Vec<(Result<KubeConfig, String>, String)>) -> (r: Result<KubeConfigs, Error>)
    ensures
        r is Err <==> (loads@.len() == 1 && loads@[0].0 is Err),
        r is Err ==> r->Err_0 == (Error::SourceRead {
            path: loads@[0].1,
            reason: loads@[0].0->Err_0,
        }),
        r is Ok ==> r->Ok_0.configs@ == loaded_sources(loads@),
        r is Ok ==> r->Ok_0.config@ == aggregate_spec(sources_view(loaded_sources(loads@))),
        r is Ok ==> r->Ok_0.wf(),
{
    let ghost all = loads@;
    let mut rest = loads;
    if rest.len() == 1 && rest[0].0.is_err() {
        let (outcome, path) = rest.remove(0);
        match outcome {
            Err(reason) => {
                return Err(Error::SourceRead { path, reason });
            },
            Ok(_) => {
                assert(false);
                return Ok(aggregate(Vec::new()));
            },
        }
    }
    let mut good: Vec<(KubeConfig, String)> = Vec::new();
    let ghost mut k: int = 0;
    assert(all.subrange(0, 0) =~= Seq::<(Result<KubeConfig, String>, String)>::empty());
    assert(rest@ =~= all.subrange(0, all.len() as int));
    while rest.len() > 0
        invariant
            0 <= k <= all.len(),
            rest@ == all.subrange(k, all.len() as int),
            good@ == loaded_sources(all.subrange(0, k)),
        decreases rest.len(),
    {
        let (outcome, path) = rest.remove(0);
        assert(all.subrange(0, k + 1).drop_last() =~= all.subrange(0, k));
        assert(all.subrange(0, k + 1).last() == all[k]);
        match outcome {
            Ok(c) => {
                good.push((c, path));
            },
            Err(_) => {},
        }
        proof {
            k = k + 1;
        }
        assert(rest@ =~= all.subrange(k, all.len() as int));
    }
    assert(all.subrange(0, k) =~= all);
    Ok(aggregate(good))
}

} // verus!
