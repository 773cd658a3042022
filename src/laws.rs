//! Properties that relate the functions of the library, proved over their
//! specifications.
use crate::config::{
    all_contexts, aggregate_spec, asked_namespace, build_spec, cluster_names, context_names, defines,
    final_namespace, first_active, first_index, lemma_index_from, lemma_owner_from, merge_spec,
    owner_index, resolve_spec, user_names, Resolution, DEFAULT_NAMESPACE,
};
use crate::config::{build_owned_spec, cached_namespace_spec, sources_view};
use crate::model::{KubeConfigView, NamedContextView};
use crate::modes::{
    context_spec, default_context_spec, default_namespace_spec, ActionView, Session,
};
use vstd::prelude::*;

verus! {

/// The aggregate's active context is the active context of the first source,
/// in order, that declares a non-empty one; it is empty when no source
/// declares one.
pub proof fn active_context_first_wins(srcs: Seq<(KubeConfigView, Seq<char>)>)
    ensures
        (forall|k: int| 0 <= k < srcs.len() ==> #[trigger] srcs[k].0.current_context.len() == 0)
            ==> aggregate_spec(srcs).current_context.len() == 0,
        forall|k: int|
            0 <= k < srcs.len() && #[trigger] srcs[k].0.current_context.len() > 0 && (forall|j: int|
                0 <= j < k ==> srcs[j].0.current_context.len() == 0) ==> aggregate_spec(
                srcs,
            ).current_context == srcs[k].0.current_context,
    decreases srcs.len(),
{
    if srcs.len() > 0 {
        let d = srcs.drop_last();
        active_context_first_wins(d);
        assert forall|k: int|
            0 <= k < srcs.len() && #[trigger] srcs[k].0.current_context.len() > 0 && (forall|j: int|
                0 <= j < k ==> srcs[j].0.current_context.len() == 0) implies first_active(srcs)
            == srcs[k].0.current_context by {
            if k < srcs.len() - 1 {
                assert(d[k] == srcs[k]);
                assert forall|j: int| 0 <= j < k implies d[j].0.current_context.len() == 0 by {
                    assert(d[j] == srcs[j]);
                }
            } else {
                assert forall|j: int| 0 <= j < d.len() implies #[trigger] d[j].0.current_context.len()
                    == 0 by {
                    assert(d[j] == srcs[j]);
                }
            }
        }
        if forall|k: int| 0 <= k < srcs.len() ==> #[trigger] srcs[k].0.current_context.len() == 0 {
            assert forall|j: int| 0 <= j < d.len() implies #[trigger] d[j].0.current_context.len()
                == 0 by {
                assert(d[j] == srcs[j]);
            }
            assert(srcs[srcs.len() - 1].0.current_context.len() == 0);
        }
    }
}

/// The owner of a context is the first source that holds a context of that
/// name: a context present in source `k` and in no source before it is owned
/// by source `k`, whatever the sources after it hold.
pub proof fn owner_is_first_defining_source(
    srcs: Seq<(KubeConfigView, Seq<char>)>,
    name: Seq<char>,
    k: int,
)
    requires
        0 <= k < srcs.len(),
        exists|i: int|
            0 <= i < srcs[k].0.contexts.len() && #[trigger] srcs[k].0.contexts[i].name == name,
        forall|j: int, i: int|
            0 <= j < k && 0 <= i < srcs[j].0.contexts.len() ==> #[trigger] srcs[j].0.contexts[i].name
                != name,
    ensures
        owner_index(srcs, name) == k,
        defines(srcs[k], name),
{
    let i = choose|i: int|
        0 <= i < srcs[k].0.contexts.len() && #[trigger] srcs[k].0.contexts[i].name == name;
    lemma_index_from(context_names(srcs[k].0.contexts), name, 0);
    assert(context_names(srcs[k].0.contexts)[i] == name);
    assert(defines(srcs[k], name));
    assert forall|j: int| 0 <= j < k implies !defines(srcs[j], name) by {
        let names = context_names(srcs[j].0.contexts);
        lemma_index_from(names, name, 0);
        if first_index(names, name) >= 0 {
            let p = first_index(names, name);
            assert(names[p] == srcs[j].0.contexts[p].name);
        }
    }
    lemma_owner_from(srcs, name, 0);
    let o = owner_index(srcs, name);
    if o < 0 {
        assert(!defines(srcs[k], name));
    } else if o < k {
        assert(!defines(srcs[o], name));
    } else if o > k {
        assert(!defines(srcs[k], name));
    }
}

/// Resolving a context present in source `k` and in no source before it
/// gives a minimal configuration whose cluster and credential are entries of
/// source `k`, named as the context references them, even where an earlier
/// source holds a cluster or credential of the same name.
pub proof fn resolution_stays_in_owner(
    srcs: Seq<(KubeConfigView, Seq<char>)>,
    name: Seq<char>,
    ns: Option<Seq<char>>,
    cached: Option<Seq<char>>,
    k: int,
)
    requires
        0 <= k < srcs.len(),
        exists|i: int|
            0 <= i < srcs[k].0.contexts.len() && #[trigger] srcs[k].0.contexts[i].name == name,
        forall|j: int, i: int|
            0 <= j < k && 0 <= i < srcs[j].0.contexts.len() ==> #[trigger] srcs[j].0.contexts[i].name
                != name,
    ensures
        resolve_spec(srcs, name, ns, cached) is Found ==> {
            let m = resolve_spec(srcs, name, ns, cached)->Found_0;
            &&& m.current_context == name
            &&& m.contexts.len() == 1
            &&& m.clusters.len() == 1
            &&& m.users.len() == 1
            &&& exists|c: int|
                0 <= c < srcs[k].0.clusters.len() && #[trigger] srcs[k].0.clusters[c]
                    == m.clusters[0] && m.clusters[0].name == m.contexts[0].context.cluster
            &&& exists|u: int|
                0 <= u < srcs[k].0.users.len() && #[trigger] srcs[k].0.users[u] == m.users[0]
                    && m.users[0].name == m.contexts[0].context.user
        },
{
    owner_is_first_defining_source(srcs, name, k);
    let cfg = srcs[k].0;
    lemma_index_from(context_names(cfg.contexts), name, 0);
    let ctx_i = first_index(context_names(cfg.contexts), name);
    let sel = cfg.contexts[ctx_i];
    assert(sel.name == context_names(cfg.contexts)[ctx_i]);
    lemma_index_from(cluster_names(cfg.clusters), sel.context.cluster, 0);
    lemma_index_from(user_names(cfg.users), sel.context.user, 0);
    let ci = first_index(cluster_names(cfg.clusters), sel.context.cluster);
    let ui = first_index(user_names(cfg.users), sel.context.user);
    if ci >= 0 && ui >= 0 {
        assert(cluster_names(cfg.clusters)[ci] == cfg.clusters[ci].name);
        assert(user_names(cfg.users)[ui] == cfg.users[ui].name);
    }
}

/// With no namespace override and no namespace recorded by a prior session
/// switch, the resolved namespace is the context's own, or the default one
/// when it sets none: a namespace given as override on an earlier call is
/// never carried over.
pub proof fn namespace_not_carried_over(srcs: Seq<(KubeConfigView, Seq<char>)>, name: Seq<char>)
    ensures
        resolve_spec(srcs, name, None, None) is Found ==> {
            let k = owner_index(srcs, name);
            let own = srcs[k].0.contexts[first_index(
                context_names(srcs[k].0.contexts),
                name,
            )].context.namespace;
            resolve_spec(srcs, name, None, None)->Found_0.contexts[0].context.namespace == if own.len()
                > 0 {
                own
            } else {
                DEFAULT_NAMESPACE@
            }
        },
{
    assert(asked_namespace(None, None) is None);
}

/// Merging a configuration into a cache file a second time, with the same
/// configuration, leaves the content as the first merge made it.
pub proof fn merge_idempotent(prior: Option<KubeConfigView>, fresh: KubeConfigView)
    ensures
        merge_spec(Some(merge_spec(prior, fresh)), fresh) == merge_spec(prior, fresh),
{
    assert(merge_spec(Some(merge_spec(prior, fresh)), fresh) =~= merge_spec(prior, fresh));
}

/// Building the minimal configuration for a context whose name is present in
/// source `k` and in no source before it takes the cluster and credential
/// from source `k`, even where an earlier source holds entries of the same
/// names.
pub proof fn build_stays_in_owner(
    srcs: Seq<(KubeConfigView, Seq<char>)>,
    sel: NamedContextView,
    asked: Option<Seq<char>>,
    k: int,
)
    requires
        0 <= k < srcs.len(),
        exists|i: int|
            0 <= i < srcs[k].0.contexts.len() && #[trigger] srcs[k].0.contexts[i].name == sel.name,
        forall|j: int, i: int|
            0 <= j < k && 0 <= i < srcs[j].0.contexts.len() ==> #[trigger] srcs[j].0.contexts[i].name
                != sel.name,
    ensures
        build_owned_spec(sel, asked, srcs) is Found ==> {
            let m = build_owned_spec(sel, asked, srcs)->Found_0;
            &&& exists|c: int|
                0 <= c < srcs[k].0.clusters.len() && #[trigger] srcs[k].0.clusters[c]
                    == m.clusters[0] && m.clusters[0].name == sel.context.cluster
            &&& exists|u: int|
                0 <= u < srcs[k].0.users.len() && #[trigger] srcs[k].0.users[u] == m.users[0]
                    && m.users[0].name == sel.context.user
        },
{
    owner_is_first_defining_source(srcs, sel.name, k);
    let cfg = srcs[k].0;
    lemma_index_from(cluster_names(cfg.clusters), sel.context.cluster, 0);
    lemma_index_from(user_names(cfg.users), sel.context.user, 0);
    let ci = first_index(cluster_names(cfg.clusters), sel.context.cluster);
    let ui = first_index(user_names(cfg.users), sel.context.user);
    if ci >= 0 && ui >= 0 {
        assert(cluster_names(cfg.clusters)[ci] == cfg.clusters[ci].name);
        assert(user_names(cfg.users)[ui] == cfg.users[ui].name);
    }
}

/// A global switch changes the source file that owns the context: for a
/// context present in source `k` of all sources and in none before it, the
/// default-context switch and the default-namespace switch (for the
/// session's active context) both name the path of source `k`.
pub proof fn default_switch_targets_owner(s: Session, value: Seq<char>, k: int)
    requires
        0 <= k < sources_view(s.all.configs@).len(),
        forall|j: int, i: int|
            0 <= j < k && 0 <= i < sources_view(s.all.configs@)[j].0.contexts.len()
                ==> #[trigger] sources_view(s.all.configs@)[j].0.contexts[i].name != value,
        exists|i: int|
            0 <= i < sources_view(s.all.configs@)[k].0.contexts.len()
                && #[trigger] sources_view(s.all.configs@)[k].0.contexts[i].name == value,
    ensures
        default_context_spec(Some(value), false, s) is Act,
        default_context_spec(Some(value), false, s)->Act_0 matches ActionView::SetDefaultContext(
            c,
            t,
            _,
        ) && c == value && t == sources_view(s.all.configs@)[k].1,
        s.current.config@.current_context == value ==> forall|ns: Seq<char>|
            #[trigger] default_namespace_spec(Some(ns), false, s) is Act ==> (default_namespace_spec(
                Some(ns),
                false,
                s,
            )->Act_0 matches ActionView::SetDefaultNamespace(c, n, t, _, _, _) && c == value && n
                == ns && t == sources_view(s.all.configs@)[k].1),
{
    owner_is_first_defining_source(sources_view(s.all.configs@), value, k);
}

/// A session switch to a context with no namespace recorded by a prior
/// switch writes the context's own namespace, or the default one when it
/// sets none: a namespace given as override before is not carried over.
pub proof fn session_switch_namespace_not_carried_over(s: Session, ctx: Seq<char>)
    requires
        cached_namespace_spec(sources_view(s.current.configs@), ctx) is None,
    ensures
        context_spec(Some(ctx), false, s) is Act && context_spec(Some(ctx), false, s)->Act_0 is Switch
            ==> {
            let m = context_spec(Some(ctx), false, s)->Act_0->Switch_0;
            let srcs = sources_view(s.current.configs@);
            let k = owner_index(srcs, ctx);
            let own = srcs[k].0.contexts[first_index(
                context_names(srcs[k].0.contexts),
                ctx,
            )].context.namespace;
            m.contexts[0].context.namespace == if own.len() > 0 {
                own
            } else {
                DEFAULT_NAMESPACE@
            }
        },
{
    namespace_not_carried_over(sources_view(s.current.configs@), ctx);
}

proof fn lemma_first_index_is(names: Seq<Seq<char>>, name: Seq<char>, p: int)
    requires
        0 <= p < names.len(),
        names[p] == name,
        forall|j: int| 0 <= j < p ==> names[j] != name,
    ensures
        first_index(names, name) == p,
{
    lemma_index_from(names, name, 0);
}

proof fn lemma_all_contexts_add(
    a: Seq<(KubeConfigView, Seq<char>)>,
    b: Seq<(KubeConfigView, Seq<char>)>,
)
    ensures
        all_contexts(a + b) == all_contexts(a) + all_contexts(b),
    decreases b.len(),
{
    if b.len() == 0 {
        assert(a + b =~= a);
        assert(all_contexts(a) + all_contexts(b) =~= all_contexts(a));
    } else {
        lemma_all_contexts_add(a, b.drop_last());
        assert((a + b).drop_last() =~= a + b.drop_last());
        assert((a + b).last() == b.last());
        assert(all_contexts(a + b) =~= all_contexts(a) + all_contexts(b));
    }
}

proof fn lemma_no_context_named(srcs: Seq<(KubeConfigView, Seq<char>)>, name: Seq<char>)
    requires
        forall|j: int| 0 <= j < srcs.len() ==> !defines(#[trigger] srcs[j], name),
    ensures
        forall|i: int|
            0 <= i < all_contexts(srcs).len() ==> #[trigger] all_contexts(srcs)[i].name != name,
    decreases srcs.len(),
{
    if srcs.len() > 0 {
        let d = srcs.drop_last();
        assert forall|j: int| 0 <= j < d.len() implies !defines(#[trigger] d[j], name) by {
            assert(d[j] == srcs[j]);
        }
        lemma_no_context_named(d, name);
        let last = srcs.last().0.contexts;
        lemma_index_from(context_names(last), name, 0);
        assert(!defines(srcs[srcs.len() - 1], name));
        assert forall|i: int| 0 <= i < all_contexts(srcs).len() implies #[trigger] all_contexts(
            srcs,
        )[i].name != name by {
            let before = all_contexts(d);
            if i >= before.len() {
                assert(all_contexts(srcs)[i] == last[i - before.len()]);
                assert(context_names(last)[i - before.len()] == last[i - before.len()].name);
            }
        }
    }
}

/// Looking a context up by name in the aggregate, first match in order,
/// finds one exactly when some source defines it, and then finds the entry
/// that resolution takes: the first of that name in the owning source.
pub proof fn aggregate_lookup_is_owner_lookup(
    srcs: Seq<(KubeConfigView, Seq<char>)>,
    name: Seq<char>,
)
    ensures
        first_index(context_names(all_contexts(srcs)), name) >= 0 <==> owner_index(srcs, name)
            >= 0,
        owner_index(srcs, name) >= 0 ==> {
            let k = owner_index(srcs, name);
            let own = srcs[k].0.contexts;
            all_contexts(srcs)[first_index(context_names(all_contexts(srcs)), name)]
                == own[first_index(context_names(own), name)]
        },
{
    let all = all_contexts(srcs);
    let names = context_names(all);
    lemma_owner_from(srcs, name, 0);
    lemma_index_from(names, name, 0);
    let k = owner_index(srcs, name);
    if k < 0 {
        lemma_no_context_named(srcs, name);
        if first_index(names, name) >= 0 {
            assert(names[first_index(names, name)] == all[first_index(names, name)].name);
        }
    } else {
        let a = srcs.subrange(0, k);
        let c = srcs.subrange(k + 1, srcs.len() as int);
        assert(srcs =~= a + seq![srcs[k]] + c);
        lemma_all_contexts_add(a, seq![srcs[k]]);
        lemma_all_contexts_add(a + seq![srcs[k]], c);
        assert(seq![srcs[k]].drop_last() =~= Seq::<(KubeConfigView, Seq<char>)>::empty());
        assert(seq![srcs[k]].last() == srcs[k]);
        assert(all_contexts(Seq::<(KubeConfigView, Seq<char>)>::empty()) =~= Seq::<
            crate::model::NamedContextView,
        >::empty());
        assert(all_contexts(seq![srcs[k]]) =~= srcs[k].0.contexts);
        let own = srcs[k].0.contexts;
        assert(all =~= all_contexts(a) + own + all_contexts(c));
        assert forall|j: int| 0 <= j < a.len() implies !defines(#[trigger] a[j], name) by {
            assert(a[j] == srcs[j]);
        }
        lemma_no_context_named(a, name);
        lemma_index_from(context_names(own), name, 0);
        let m = first_index(context_names(own), name);
        let p = all_contexts(a).len() + m;
        assert(all[p] == own[m]);
        assert(context_names(own)[m] == own[m].name);
        assert forall|j: int| 0 <= j < p implies names[j] != name by {
            if j < all_contexts(a).len() {
                assert(all[j] == all_contexts(a)[j]);
            } else {
                assert(all[j] == own[j - all_contexts(a).len()]);
                assert(context_names(own)[j - all_contexts(a).len()] == own[j - all_contexts(
                    a,
                ).len()].name);
            }
        }
        lemma_first_index_is(names, name, p);
    }
}

} // verus!
