//! The decisions of one invocation. The caller gathers the inputs (the
//! source list, the loaded sources, the cluster's namespaces) into a
//! [`Session`], and [`Mode::invoke`] says what to do: print a line, ask the
//! user to pick, write a session-cache entry, or change a source file.
use crate::config::{
    find_context, lemma_index_from, cached_namespace, cached_namespace_spec, context_names, entry_path_spec, first_index,
    locate_owner, owner_index, resolution_of, resolve_spec, set_context, set_namespace,
    sources_view, CacheEntry, KubeConfigs, Resolution, DEFAULT_NAMESPACE,
};
use crate::error::Error;
use crate::model::{contexts_view, KubeConfig, KubeConfigView};
use crate::text::{
    chars_of, join_strings, join_with, lemma_split_on_nonempty, push_char, split_on,
    split_on_char, starts_with_seq, starts_with_str, strings_view,
};
use vstd::prelude::*;

verus! {

/// What is printed when no active context is set.
pub const NO_CURRENT_CONTEXT: &'static str = "No current context set";

/// What an invocation does.
#[derive(Clone, Copy, PartialEq, Eq, Debug, Structural)]
pub enum Mode {
    /// Switch the namespace of this shell's session.
    Namespace,
    /// Switch the context of this shell's session.
    Context,
    /// Switch the active context in the source file that defines it.
    DefaultContext,
    /// Switch the namespace of the active context in its source file too.
    DefaultNamespace,
    /// List the context names that start with the given text.
    CompletionContext,
    /// List the namespaces that start with the given text.
    CompletionNamespace,
}

/// The request of one invocation.
pub struct Cli {
    pub mode: Mode,
    /// The context or namespace asked for, already trimmed; `None` asks the
    /// user to pick.
    pub value: Option<String>,
    /// Only print the current value.
    pub current: bool,
}

/// What the caller gathered before the decision.
pub struct Session {
    /// The source list, as the search value of all sources.
    pub sources: String,
    /// The session-cache root.
    pub dest: String,
    /// Every source, without the session's cache entry.
    pub all: KubeConfigs,
    /// The current session: its cache entry first, then every source.
    pub current: KubeConfigs,
    /// The cluster's namespaces, where the mode needs them.
    pub namespaces: Vec<String>,
}

/// What the caller is to do.
pub enum Action {
    /// Print the line.
    Print(String),
    /// Let the user pick one option, then invoke again with it as the value;
    /// no pick is an error.
    Pick { prompt: String, options: Vec<String> },
    /// Write the entry over its cache file (merged with what the file held),
    /// then print the line.
    Switch { entry: CacheEntry, line: String },
    /// Make `context` active in the source file `target`, then print the line.
    SetDefaultContext { context: String, target: String, line: String },
    /// Set the namespace of `context` in the source file `target`, write the
    /// entry over its cache file, then print the line.
    SetDefaultNamespace {
        context: String,
        namespace: String,
        target: String,
        entry: CacheEntry,
        line: String,
    },
}

/// The view of an action.
pub enum ActionView {
    Print(Seq<char>),
    Pick(Seq<char>, Seq<Seq<char>>),
    Switch(KubeConfigView, Seq<char>, Seq<char>),
    SetDefaultContext(Seq<char>, Seq<char>, Seq<char>),
    SetDefaultNamespace(Seq<char>, Seq<char>, Seq<char>, KubeConfigView, Seq<char>, Seq<char>),
}

/// The view of the outcome of a decision.
pub enum Outcome {
    Act(ActionView),
    Failed(Resolution),
    Other,
}

pub open spec fn action_view(a: Action) -> ActionView {
    match a {
        Action::Print(s) => ActionView::Print(s@),
        Action::Pick { prompt, options } => ActionView::Pick(prompt@, strings_view(options@)),
        Action::Switch { entry, line } => ActionView::Switch(entry.config@, entry.path@, line@),
        Action::SetDefaultContext { context, target, line } => ActionView::SetDefaultContext(
            context@,
            target@,
            line@,
        ),
        Action::SetDefaultNamespace { context, namespace, target, entry, line } =>
            ActionView::SetDefaultNamespace(
            context@,
            namespace@,
            target@,
            entry.config@,
            entry.path@,
            line@,
        ),
    }
}

pub open spec fn outcome_of(r: Result<Action, Error>) -> Outcome {
    match r {
        Ok(a) => Outcome::Act(action_view(a)),
        Err(Error::SetContext(e)) => Outcome::Failed(resolution_of(Err(e))),
        Err(_) => Outcome::Other,
    }
}

pub open spec fn value_view(o: Option<String>) -> Option<Seq<char>> {
    match o {
        Some(s) => Some(s@),
        None => None,
    }
}

/// The printed name of an active context.
pub open spec fn current_label(cc: Seq<char>) -> Seq<char> {
    if cc.len() > 0 {
        cc
    } else {
        NO_CURRENT_CONTEXT@
    }
}

/// The namespace of the active context of `cfg`: that of its first context
/// of that name when it sets one, else the default one.
pub open spec fn current_namespace_spec(cfg: KubeConfigView) -> Seq<char> {
    let i = first_index(context_names(cfg.contexts), cfg.current_context);
    if i >= 0 && cfg.contexts[i].context.namespace.len() > 0 {
        cfg.contexts[i].context.namespace
    } else {
        DEFAULT_NAMESPACE@
    }
}

/// The options that start with `prefix`, in order.
pub open spec fn completions_spec(options: Seq<Seq<char>>, prefix: Seq<char>) -> Seq<Seq<char>>
    decreases options.len(),
{
    if options.len() == 0 {
        Seq::empty()
    } else if starts_with_seq(options.last(), prefix) {
        completions_spec(options.drop_last(), prefix).push(options.last())
    } else {
        completions_spec(options.drop_last(), prefix)
    }
}

/// The line printed after a switch: the new cache file put before the
/// source list.
pub open spec fn switch_line(path: Seq<char>, sources: Seq<char>) -> Seq<char> {
    path + seq![':'] + sources
}

/// The outcome of writing a session-cache entry for a resolution.
pub open spec fn switch_outcome(res: Resolution, s: Session) -> Outcome {
    match res {
        Resolution::Found(m) => Outcome::Act(
            ActionView::Switch(
                m,
                entry_path_spec(m, s.dest@),
                switch_line(entry_path_spec(m, s.dest@), s.sources@),
            ),
        ),
        other => Outcome::Failed(other),
    }
}

pub open spec fn context_spec(value: Option<Seq<char>>, current: bool, s: Session) -> Outcome {
    let cfg = s.current.config@;
    let srcs = sources_view(s.current.configs@);
    if current {
        Outcome::Act(ActionView::Print(current_label(cfg.current_context)))
    } else {
        match value {
            None => Outcome::Act(ActionView::Pick("context"@, context_names(cfg.contexts))),
            Some(ctx) => switch_outcome(
                resolve_spec(srcs, ctx, None, cached_namespace_spec(srcs, ctx)),
                s,
            ),
        }
    }
}

pub open spec fn namespace_spec(value: Option<Seq<char>>, current: bool, s: Session) -> Outcome {
    let cfg = s.current.config@;
    let srcs = sources_view(s.current.configs@);
    if current {
        Outcome::Act(ActionView::Print(current_namespace_spec(cfg)))
    } else {
        match value {
            None => Outcome::Act(ActionView::Pick("namespace"@, strings_view(s.namespaces@))),
            Some(ns) => switch_outcome(resolve_spec(srcs, cfg.current_context, Some(ns), None), s),
        }
    }
}

pub open spec fn default_context_spec(value: Option<Seq<char>>, current: bool, s: Session) -> Outcome {
    let cfg = s.all.config@;
    let srcs = sources_view(s.all.configs@);
    if current {
        Outcome::Act(ActionView::Print(current_label(cfg.current_context)))
    } else {
        match value {
            None => Outcome::Act(ActionView::Pick("context"@, context_names(cfg.contexts))),
            Some(ctx) => {
                let k = owner_index(srcs, ctx);
                if k < 0 {
                    Outcome::Failed(Resolution::NoContext(ctx))
                } else {
                    Outcome::Act(
                        ActionView::SetDefaultContext(
                            ctx,
                            srcs[k].1,
                            switch_line(srcs[k].1, s.sources@),
                        ),
                    )
                }
            },
        }
    }
}

pub open spec fn default_namespace_spec(value: Option<Seq<char>>, current: bool, s: Session) -> Outcome {
    let cfg = s.current.config@;
    let srcs = sources_view(s.current.configs@);
    let all = sources_view(s.all.configs@);
    let ctx = cfg.current_context;
    if current {
        Outcome::Act(ActionView::Print(current_namespace_spec(cfg)))
    } else {
        match value {
            None => Outcome::Act(ActionView::Pick("namespace"@, strings_view(s.namespaces@))),
            Some(ns) => {
                let k = owner_index(all, ctx);
                if k < 0 {
                    Outcome::Failed(Resolution::NoContext(ctx))
                } else {
                    match resolve_spec(srcs, ctx, Some(ns), None) {
                        Resolution::Found(m) => Outcome::Act(
                            ActionView::SetDefaultNamespace(
                                ctx,
                                ns,
                                all[k].1,
                                m,
                                entry_path_spec(m, s.dest@),
                                switch_line(entry_path_spec(m, s.dest@), s.sources@),
                            ),
                        ),
                        other => Outcome::Failed(other),
                    }
                }
            },
        }
    }
}

pub open spec fn completion_context_spec(value: Option<Seq<char>>, s: Session) -> Outcome {
    let prefix = match value {
        Some(v) => v,
        None => Seq::empty(),
    };
    Outcome::Act(
        ActionView::Print(
            join_with(completions_spec(context_names(s.all.config@.contexts), prefix), seq![' ']),
        ),
    )
}

pub open spec fn completion_namespace_spec(value: Option<Seq<char>>, s: Session) -> Outcome {
    let prefix = match value {
        Some(v) => v,
        None => Seq::empty(),
    };
    Outcome::Act(
        ActionView::Print(
            join_with(completions_spec(strings_view(s.namespaces@), prefix), seq![' ']),
        ),
    )
}

/// The decision of an invocation in mode `mode`.
pub open spec fn invoke_spec(mode: Mode, value: Option<Seq<char>>, current: bool, s: Session) -> Outcome {
    match mode {
        Mode::Namespace => namespace_spec(value, current, s),
        Mode::Context => context_spec(value, current, s),
        Mode::DefaultContext => default_context_spec(value, current, s),
        Mode::DefaultNamespace => default_namespace_spec(value, current, s),
        Mode::CompletionContext => completion_context_spec(value, s),
        Mode::CompletionNamespace => completion_namespace_spec(value, s),
    }
}

/// The names of the contexts of `cfg`, in order.
fn names_of(cfg: &KubeConfig) -> (r: Vec<String>)
    ensures
        strings_view(r@) == context_names(cfg@.contexts),
{
    let mut out: Vec<String> = Vec::new();
    let mut i: usize = 0;
    while i < cfg.contexts.len()
        invariant
            i <= cfg.contexts@.len(),
            strings_view(out@) == context_names(contexts_view(cfg.contexts@.subrange(0, i as int))),
        decreases cfg.contexts.len() - i,
    {
        let ghost before = out@;
        let n = cfg.contexts[i].name.clone();
        out.push(n);
        assert(strings_view(out@) =~= strings_view(before).push(n@));
        assert(context_names(contexts_view(cfg.contexts@.subrange(0, i + 1))) =~= context_names(
            contexts_view(cfg.contexts@.subrange(0, i as int)),
        ).push(cfg.contexts@[i as int].name@));
        i += 1;
        assert(strings_view(out@) =~= context_names(
            contexts_view(cfg.contexts@.subrange(0, i as int)),
        ));
    }
    assert(cfg.contexts@.subrange(0, i as int) =~= cfg.contexts@);
    out
}

fn copy_strings(v: &Vec<String>) -> (r: Vec<String>)
    ensures
        strings_view(r@) == strings_view(v@),
{
    let mut out: Vec<String> = Vec::new();
    let mut i: usize = 0;
    while i < v.len()
        invariant
            i <= v@.len(),
            strings_view(out@) == strings_view(v@.subrange(0, i as int)),
        decreases v.len() - i,
    {
        let ghost before = out@;
        let n = v[i].clone();
        out.push(n);
        assert(strings_view(out@) =~= strings_view(before).push(n@));
        assert(strings_view(v@.subrange(0, i + 1)) =~= strings_view(v@.subrange(0, i as int)).push(
            v@[i as int]@,
        ));
        i += 1;
        assert(strings_view(out@) =~= strings_view(v@.subrange(0, i as int)));
    }
    assert(v@.subrange(0, i as int) =~= v@);
    out
}

/// The printed name of the active context `cc`.
fn label(cc: &String) -> (r: String)
    ensures
        r@ == current_label(cc@),
{
    if cc.as_str().is_empty() {
        NO_CURRENT_CONTEXT.to_owned()
    } else {
        cc.clone()
    }
}

fn line_of(path: &String, sources: &String) -> (r: String)
    ensures
        r@ == switch_line(path@, sources@),
{
    let mut l = path.clone();
    l.append(":");
    l.append(sources.as_str());
    proof {
        reveal_strlit(":");
    }
    assert(l@ =~= switch_line(path@, sources@));
    l
}

/// The namespace of the active context of `cfg`; the default one when that
/// context sets none or is not among the contexts of `cfg`.
pub fn current_namespace(cfg: &KubeConfig) -> (r: String)
    ensures
        r@ == current_namespace_spec(cfg@),
{
    proof {
        lemma_index_from(context_names(cfg@.contexts), cfg@.current_context, 0);
    }
    match find_context(&cfg.contexts, &cfg.current_context) {
        Some(i) => {
            if cfg.contexts[i].context.namespace.as_str().is_empty() {
                DEFAULT_NAMESPACE.to_owned()
            } else {
                cfg.contexts[i].context.namespace.clone()
            }
        },
        None => DEFAULT_NAMESPACE.to_owned(),
    }
}

/// The options that start with `prefix`, in order, separated by spaces.
pub fn completions(options: &Vec<String>, prefix: &str) -> (r: String)
    ensures
        r@ == join_with(completions_spec(strings_view(options@), prefix@), seq![' ']),
{
    let mut kept: Vec<String> = Vec::new();
    let mut i: usize = 0;
    assert(strings_view(options@.subrange(0, 0)) =~= Seq::<Seq<char>>::empty());
    while i < options.len()
        invariant
            i <= options@.len(),
            strings_view(kept@) == completions_spec(
                strings_view(options@.subrange(0, i as int)),
                prefix@,
            ),
        decreases options.len() - i,
    {
        let ghost pre = strings_view(options@.subrange(0, i as int));
        assert(strings_view(options@.subrange(0, i + 1)).drop_last() =~= pre);
        assert(strings_view(options@.subrange(0, i + 1)).last() == options@[i as int]@);
        if starts_with_str(options[i].as_str(), prefix) {
            kept.push(options[i].clone());
            assert(strings_view(kept@) =~= completions_spec(pre, prefix@).push(
                options@[i as int]@,
            ));
        }
        i += 1;
    }
    assert(options@.subrange(0, i as int) =~= options@);
    proof {
        reveal_strlit(" ");
    }
    assert(" "@ =~= seq![' ']);
    join_strings(&kept, " ")
}

fn switch_action(r: Result<CacheEntry, crate::error::SetContextError>, s: &Session) -> (a: Result<
    Action,
    Error,
>)
    requires
        r is Ok ==> r->Ok_0.path@ == entry_path_spec(r->Ok_0.config@, s.dest@),
    ensures
        outcome_of(a) == switch_outcome(crate::config::entry_result(r), *s),
{
    match r {
        Ok(entry) => {
            let line = line_of(&entry.path, &s.sources);
            Ok(Action::Switch { entry, line })
        },
        Err(e) => Err(Error::SetContext(e)),
    }
}

/// Switches the context of this shell's session: prints the active context,
/// asks for a pick, or writes the cache entry for the context asked for.
pub fn context(args: &Cli, session: &Session) -> (r: Result<Action, Error>)
    ensures
        outcome_of(r) == context_spec(value_view(args.value), args.current, *session),
{
    let cfg = &session.current.config;
    if args.current {
        return Ok(Action::Print(label(&cfg.current_context)));
    }
    match &args.value {
        None => Ok(Action::Pick { prompt: "context".to_owned(), options: names_of(cfg) }),
        Some(ctx) => {
            let cached = cached_namespace(&session.current, ctx.as_str());
            let cached_ref: Option<&str> = match &cached {
                Some(c) => Some(c.as_str()),
                None => None,
            };
            let r = set_context(ctx.as_str(), session.dest.as_str(), &session.current, cached_ref);
            switch_action(r, session)
        },
    }
}

/// Switches the namespace of this shell's session: prints the active
/// namespace, asks for a pick, or writes the cache entry for the active
/// context with the namespace asked for.
pub fn namespace(args: &Cli, session: &Session) -> (r: Result<Action, Error>)
    ensures
        outcome_of(r) == namespace_spec(value_view(args.value), args.current, *session),
{
    let cfg = &session.current.config;
    if args.current {
        return Ok(Action::Print(current_namespace(cfg)));
    }
    match &args.value {
        None => Ok(
            Action::Pick {
                prompt: "namespace".to_owned(),
                options: copy_strings(&session.namespaces),
            },
        ),
        Some(ns) => {
            let r = set_namespace(
                cfg.current_context.as_str(),
                ns.as_str(),
                session.dest.as_str(),
                &session.current,
            );
            switch_action(r, session)
        },
    }
}

/// Switches the active context in the source file that defines it: prints
/// the active context, asks for a pick, or names the owning file.
pub fn default_context(args: &Cli, session: &Session) -> (r: Result<Action, Error>)
    ensures
        outcome_of(r) == default_context_spec(value_view(args.value), args.current, *session),
{
    let cfg = &session.all.config;
    if args.current {
        return Ok(Action::Print(label(&cfg.current_context)));
    }
    match &args.value {
        None => Ok(Action::Pick { prompt: "context".to_owned(), options: names_of(cfg) }),
        Some(ctx) => match locate_owner(&session.all, ctx.as_str()) {
            Ok(target) => {
                let line = line_of(&target, &session.sources);
                Ok(Action::SetDefaultContext { context: ctx.clone(), target, line })
            },
            Err(e) => Err(Error::SetContext(e)),
        },
    }
}

/// Switches the namespace of the active context in the source file that
/// defines it and in this shell's session: prints the active namespace, asks
/// for a pick, or names the owning file and the cache entry to write.
pub fn default_namespace(args: &Cli, session: &Session) -> (r: Result<Action, Error>)
    ensures
        outcome_of(r) == default_namespace_spec(value_view(args.value), args.current, *session),
{
    let cfg = &session.current.config;
    if args.current {
        return Ok(Action::Print(current_namespace(cfg)));
    }
    match &args.value {
        None => Ok(
            Action::Pick {
                prompt: "namespace".to_owned(),
                options: copy_strings(&session.namespaces),
            },
        ),
        Some(ns) => {
            let ctx = &cfg.current_context;
            match locate_owner(&session.all, ctx.as_str()) {
                Err(e) => Err(Error::SetContext(e)),
                Ok(target) => match set_namespace(
                    ctx.as_str(),
                    ns.as_str(),
                    session.dest.as_str(),
                    &session.current,
                ) {
                    Ok(entry) => {
                        let line = line_of(&entry.path, &session.sources);
                        Ok(
                            Action::SetDefaultNamespace {
                                context: ctx.clone(),
                                namespace: ns.clone(),
                                target,
                                entry,
                                line,
                            },
                        )
                    },
                    Err(e) => Err(Error::SetContext(e)),
                },
            }
        },
    }
}

/// The context names of all sources that start with the given text (empty
/// when none is given), separated by spaces.
pub fn completion_context(args: &Cli, session: &Session) -> (r: Result<Action, Error>)
    ensures
        outcome_of(r) == completion_context_spec(value_view(args.value), *session),
{
    let names = names_of(&session.all.config);
    let line = match &args.value {
        Some(v) => completions(&names, v.as_str()),
        None => completions(&names, ""),
    };
    proof {
        reveal_strlit("");
    }
    assert(""@ =~= Seq::<char>::empty());
    Ok(Action::Print(line))
}

/// The namespaces that start with the given text (empty when none is given),
/// separated by spaces.
pub fn completion_namespace(args: &Cli, session: &Session) -> (r: Result<Action, Error>)
    ensures
        outcome_of(r) == completion_namespace_spec(value_view(args.value), *session),
{
    let line = match &args.value {
        Some(v) => completions(&session.namespaces, v.as_str()),
        None => completions(&session.namespaces, ""),
    };
    proof {
        reveal_strlit("");
    }
    assert(""@ =~= Seq::<char>::empty());
    Ok(Action::Print(line))
}

/// A line without its one trailing carriage return.
pub open spec fn strip_cr(l: Seq<char>) -> Seq<char> {
    if l.len() > 0 && l.last() == '\r' {
        l.drop_last()
    } else {
        l
    }
}

/// The lines of `s`: the pieces between line feeds. Each piece that a line
/// feed ends loses one trailing carriage return; the last piece, which no
/// line feed ends, is kept as it is, and left out when empty.
pub open spec fn lines_of(s: Seq<char>) -> Seq<Seq<char>> {
    let p = split_on(s, '\n');
    let ended = p.drop_last().map_values(|l: Seq<char>| strip_cr(l));
    if p.last().len() == 0 {
        ended
    } else {
        ended.push(p.last())
    }
}

/// The namespaces of a one-column listing: its lines after the header line.
pub open spec fn listed_namespaces(s: Seq<char>) -> Seq<Seq<char>> {
    let l = lines_of(s);
    if l.len() > 0 {
        l.subrange(1, l.len() as int)
    } else {
        l
    }
}

fn strip_cr_of(l: &String) -> (r: String)
    ensures
        r@ == strip_cr(l@),
{
    let chars = chars_of(l.as_str());
    let n = chars.len();
    let end: usize = if n > 0 && chars[n - 1] == '\r' {
        n - 1
    } else {
        n
    };
    let mut out = String::new();
    let mut i: usize = 0;
    while i < end
        invariant
            chars@ == l@,
            end <= chars@.len(),
            i <= end,
            out@ == l@.subrange(0, i as int),
        decreases end - i,
    {
        push_char(&mut out, chars[i]);
        i += 1;
        assert(out@ =~= l@.subrange(0, i as int));
    }
    assert(out@ =~= strip_cr(l@));
    out
}

/// The namespaces of the listing `output` that the cluster gives: every
/// line after the header line (see [`lines_of`]).
pub fn namespaces_from_listing(output: &str) -> (r: Vec<String>)
    ensures
        strings_view(r@) == listed_namespaces(output@),
{
    let parts = split_on_char(output, '\n');
    proof {
        lemma_split_on_nonempty(output@, '\n');
    }
    let ghost p = split_on(output@, '\n');
    let ghost ended = p.drop_last().map_values(|l: Seq<char>| strip_cr(l));
    let n = parts.len();
    let mut out: Vec<String> = Vec::new();
    if n == 1 {
        assert(strings_view(out@) =~= listed_namespaces(output@));
        return out;
    }
    let mut i: usize = 1;
    assert(strings_view(out@) =~= ended.subrange(1, 1));
    while i < n - 1
        invariant
            strings_view(parts@) == p,
            n == parts@.len(),
            n >= 2,
            ended == p.drop_last().map_values(|l: Seq<char>| strip_cr(l)),
            1 <= i <= n - 1,
            strings_view(out@) == ended.subrange(1, i as int),
        decreases n - 1 - i,
    {
        let ghost before = out@;
        let line = strip_cr_of(&parts[i]);
        out.push(line);
        assert(strings_view(out@) =~= strings_view(before).push(line@));
        i += 1;
        assert(strings_view(out@) =~= ended.subrange(1, i as int));
    }
    assert(strings_view(parts@)[n - 1] == parts@[n - 1]@);
    if !parts[n - 1].as_str().is_empty() {
        let ghost before = out@;
        let last = parts[n - 1].clone();
        out.push(last);
        assert(strings_view(out@) =~= strings_view(before).push(p.last()));
        assert(lines_of(output@).subrange(1, lines_of(output@).len() as int) =~= ended.subrange(
            1,
            n - 1,
        ).push(p.last()));
    } else {
        assert(lines_of(output@).subrange(1, lines_of(output@).len() as int) =~= ended.subrange(
            1,
            n - 1,
        ));
    }
    out
}

impl Mode {
    /// The decision of an invocation in this mode, on the request `args` and
    /// the gathered inputs `session`.
    pub fn invoke(&self, args: &Cli, session: &Session) -> (r: Result<Action, Error>)
        ensures
            outcome_of(r) == invoke_spec(*self, value_view(args.value), args.current, *session),
    {
        match self {
            Mode::Namespace => namespace(args, session),
            Mode::Context => context(args, session),
            Mode::DefaultContext => default_context(args, session),
            Mode::DefaultNamespace => default_namespace(args, session),
            Mode::CompletionContext => completion_context(args, session),
            Mode::CompletionNamespace => completion_namespace(args, session),
        }
    }
}

} // verus!
