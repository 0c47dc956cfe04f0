//! Queries for the ranges of variables in a context and in the contexts below it.

use crate::analyzer::{Analyzer, GraphLike};
use crate::ast::Loc;
use crate::context::{context_at, descends, is_context, resolve, var_at};
use crate::range::{Domain, Interval, Range, Span};
use crate::types::{copy_range, copy_text, Branch, ContextVar, Node, Origin};
use vstd::prelude::*;

verus! {

/// What a query shows.
#[derive(Debug, Clone, Copy, PartialEq, Eq, Structural)]
pub struct ReportConfig {
    /// Evaluate each range to its interval.
    pub eval_bounds: bool,
    /// Show temporaries.
    pub show_tmps: bool,
    /// Show variables whose range is one literal number.
    pub show_consts: bool,
    /// Go into the contexts below the one asked for.
    pub show_subctxs: bool,
    /// Show the range that each variable had before it was narrowed.
    pub show_initial_bounds: bool,
}

/// One narrowing step: the version it made, whether a branch or an assertion made it, and
/// where in the source.
#[derive(Debug, Clone, Copy, PartialEq, Eq, Structural)]
pub struct Step {
    pub version: usize,
    pub origin: Origin,
    pub loc: Loc,
}

/// The range of one variable in one context, and how it came about.
#[derive(Debug, PartialEq, Eq)]
pub struct Report {
    /// The context that the report is about.
    pub ctx: usize,
    /// The version of the variable that is live in the context.
    pub var: usize,
    pub name: Option<String>,
    /// Where in the source the version came about.
    pub loc: Loc,
    pub domain: Option<Domain>,
    /// How the version came about.
    pub origin: Origin,
    /// The range of the version, as it was derived.
    pub range: Option<Range>,
    /// The interval of the range, where the query evaluates.
    pub bounds: Option<Interval>,
    /// The narrowing steps that led to the version, the latest first.
    pub steps: Vec<Step>,
    /// The version that the narrowing started from, where there is one.
    pub first: Option<usize>,
    /// The range before any narrowing, where the query shows it.
    pub initial: Option<Range>,
    /// The interval of the range before any narrowing, where the query shows it and
    /// evaluates.
    pub initial_bounds: Option<Interval>,
}

/// A report with its intervals as numbers.
pub struct ReportView {
    pub ctx: usize,
    pub var: usize,
    pub name: Option<String>,
    pub loc: Loc,
    pub domain: Option<Domain>,
    pub origin: Origin,
    pub range: Option<Range>,
    pub bounds: Option<Span>,
    pub steps: Seq<Step>,
    pub first: Option<usize>,
    pub initial: Option<Range>,
    pub initial_bounds: Option<Span>,
}

/// An optional interval as numbers.
pub open spec fn span_of(i: Option<Interval>) -> Option<Span> {
    match i {
        Some(x) => Some(x@),
        None => None,
    }
}

impl View for Report {
    type V = ReportView;

    open spec fn view(&self) -> ReportView {
        ReportView {
            ctx: self.ctx,
            var: self.var,
            name: self.name,
            loc: self.loc,
            domain: self.domain,
            origin: self.origin,
            range: self.range,
            bounds: span_of(self.bounds),
            steps: self.steps@,
            first: self.first,
            initial: self.initial,
            initial_bounds: span_of(self.initial_bounds),
        }
    }
}

/// Whether every interval in the reports writes zero without a sign.
pub open spec fn all_canonical(reports: Seq<Report>) -> bool {
    forall|i: int|
        0 <= i < reports.len() ==> ((#[trigger] reports[i]).bounds.is_some()
            ==> reports[i].bounds.unwrap().canonical()) && (reports[i].initial_bounds.is_some()
            ==> reports[i].initial_bounds.unwrap().canonical())
}

/// The reports of a sequence, each with its intervals as numbers.
pub open spec fn views(reports: Seq<Report>) -> Seq<ReportView> {
    reports.map_values(|r: Report| r@)
}

/// Whether the version restricts the one before it.
pub open spec fn is_narrowing(var: ContextVar) -> bool {
    var.origin == Origin::Branch || var.origin == Origin::Assertion
}

/// Whether the handle has a version that restricts the one before it.
pub open spec fn narrows(nodes: Seq<Node>, v: usize) -> bool {
    match var_at(nodes, v) {
        Some(var) => is_narrowing(var),
        None => false,
    }
}

/// The version that a version replaces, where that came earlier in the graph.
pub open spec fn earlier(nodes: Seq<Node>, v: usize) -> Option<usize> {
    match var_at(nodes, v) {
        Some(var) => match var.prev {
            Some(p) => if p < v && var_at(nodes, p).is_some() {
                Some(p)
            } else {
                None
            },
            None => None,
        },
        None => None,
    }
}

/// The version that the narrowing of a version started from. There is none where the
/// first narrowing restricted a parameter or a declared variable that had no version.
pub open spec fn chain_first(nodes: Seq<Node>, v: usize) -> Option<usize>
    decreases v,
{
    if narrows(nodes, v) {
        match earlier(nodes, v) {
            Some(p) => chain_first(nodes, p),
            None => None,
        }
    } else if var_at(nodes, v).is_some() {
        Some(v)
    } else {
        None
    }
}

/// The narrowing steps that led to a version, the latest first.
pub open spec fn chain_steps(nodes: Seq<Node>, v: usize) -> Seq<Step>
    decreases v,
{
    if narrows(nodes, v) {
        seq![
            Step {
                version: v,
                origin: var_at(nodes, v).unwrap().origin,
                loc: var_at(nodes, v).unwrap().loc,
            },
        ] + match earlier(nodes, v) {
            Some(p) => chain_steps(nodes, p),
            None => Seq::empty(),
        }
    } else {
        Seq::empty()
    }
}

/// The range before any narrowing, where there is a range and the query shows it.
pub open spec fn initial_of(range: Option<Range>, wanted: bool) -> Option<Range> {
    match range {
        Some(r) => if wanted {
            Some(r.unnarrowed())
        } else {
            None
        },
        None => None,
    }
}

/// Whether the range is one literal number.
pub open spec fn is_const(var: ContextVar) -> bool {
    match var.range {
        Some(r) => r.is_exact(),
        None => false,
    }
}

/// Whether a query shows the version: a temporary only where temporaries are shown, a
/// version whose range is one literal number only where constants are shown.
pub open spec fn visible(var: ContextVar, config: ReportConfig) -> bool {
    (config.show_tmps || var.tmp_of.is_none()) && (config.show_consts || !is_const(var))
}

/// The interval of a range, where there is a range and the query evaluates.
pub open spec fn evaluated(range: Option<Range>, wanted: bool) -> Option<Span> {
    match range {
        Some(r) => if wanted {
            Some(r.span())
        } else {
            None
        },
        None => None,
    }
}

/// The report about the version `v` in the context `ctx`.
pub open spec fn report_of(nodes: Seq<Node>, ctx: usize, v: usize, config: ReportConfig)
    -> ReportView {
    let var = var_at(nodes, v).unwrap();
    let initial = initial_of(var.range, config.show_initial_bounds);
    ReportView {
        ctx,
        var: v,
        name: var.name,
        loc: var.loc,
        domain: var.domain,
        origin: var.origin,
        range: var.range,
        bounds: evaluated(var.range, config.eval_bounds),
        steps: chain_steps(nodes, v),
        first: chain_first(nodes, v),
        initial,
        initial_bounds: evaluated(initial, config.eval_bounds),
    }
}

/// Whether a query from `root` reaches the context: it is `root`, or a context below it
/// where the query goes below.
pub open spec fn in_scope(nodes: Seq<Node>, root: usize, ctx: usize, config: ReportConfig) -> bool {
    ctx == root || (config.show_subctxs && is_context(nodes, ctx) && descends(nodes, ctx, root))
}

/// The reports about a named variable for the contexts with a handle below `upto`: one
/// for each context that the query reaches and in which the variable is live and shown,
/// in the order of the handles.
pub open spec fn bounds_upto(
    nodes: Seq<Node>,
    root: usize,
    name: Seq<char>,
    config: ReportConfig,
    upto: nat,
) -> Seq<ReportView>
    decreases upto,
{
    if upto == 0 {
        Seq::empty()
    } else {
        let rest = bounds_upto(nodes, root, name, config, (upto - 1) as nat);
        let ctx = (upto - 1) as usize;
        match resolve(nodes, ctx, name) {
            Some(v) => if in_scope(nodes, root, ctx, config) && var_at(nodes, v).is_some()
                && visible(var_at(nodes, v).unwrap(), config) {
                rest.push(report_of(nodes, ctx, v, config))
            } else {
                rest
            },
            None => rest,
        }
    }
}

/// The reports about a named variable for a context and, where the query goes below,
/// the contexts below it.
pub open spec fn bounds_of(nodes: Seq<Node>, root: usize, name: Seq<char>, config: ReportConfig)
    -> Seq<ReportView> {
    bounds_upto(nodes, root, name, config, nodes.len())
}

/// Whether the version counts in a context: it is the live version of its name there, or
/// it is a temporary of that context.
pub open spec fn counts_in(nodes: Seq<Node>, ctx: usize, v: usize) -> bool {
    match var_at(nodes, v) {
        Some(var) => match var.name {
            Some(name) => var.tmp_of.is_none() && resolve(nodes, ctx, name@) == Some(v),
            None => var.ctx == ctx,
        },
        None => false,
    }
}

/// The reports for one context about the versions with a handle below `upto`: one for
/// each version that counts in the context and is shown, in the order of the handles.
pub open spec fn context_reports(
    nodes: Seq<Node>,
    ctx: usize,
    config: ReportConfig,
    upto: nat,
) -> Seq<ReportView>
    decreases upto,
{
    if upto == 0 {
        Seq::empty()
    } else {
        let rest = context_reports(nodes, ctx, config, (upto - 1) as nat);
        let v = (upto - 1) as usize;
        if counts_in(nodes, ctx, v) && visible(var_at(nodes, v).unwrap(), config) {
            rest.push(report_of(nodes, ctx, v, config))
        } else {
            rest
        }
    }
}

/// The reports about every variable for the contexts with a handle below `upto` that the
/// query reaches, context by context in the order of the handles.
pub open spec fn all_upto(nodes: Seq<Node>, root: usize, config: ReportConfig, upto: nat) -> Seq<
    ReportView,
>
    decreases upto,
{
    if upto == 0 {
        Seq::empty()
    } else {
        let rest = all_upto(nodes, root, config, (upto - 1) as nat);
        let ctx = (upto - 1) as usize;
        if in_scope(nodes, root, ctx, config) {
            rest + context_reports(nodes, ctx, config, nodes.len())
        } else {
            rest
        }
    }
}

/// The reports about every variable that is live in a context or, where the query goes
/// below, in a context below it.
pub open spec fn all_bounds(nodes: Seq<Node>, root: usize, config: ReportConfig) -> Seq<
    ReportView,
> {
    all_upto(nodes, root, config, nodes.len())
}

/// The entry contexts among the first `upto` nodes, in the order of their handles.
pub open spec fn entries_upto(nodes: Seq<Node>, upto: nat) -> Seq<usize>
    decreases upto,
{
    if upto == 0 {
        Seq::empty()
    } else {
        let rest = entries_upto(nodes, (upto - 1) as nat);
        match context_at(nodes, (upto - 1) as usize) {
            Some(c) => if c.branch == Branch::Entry {
                rest.push((upto - 1) as usize)
            } else {
                rest
            },
            None => rest,
        }
    }
}

/// Whether a query shows the version.
pub fn is_visible(var: &ContextVar, config: ReportConfig) -> (b: bool)
    ensures
        b == visible(*var, config),
{
    let constant = match &var.range {
        Some(r) => r.exact(),
        None => false,
    };
    (config.show_tmps || var.tmp_of.is_none()) && (config.show_consts || !constant)
}

/// The interval of a range, where there is a range and the query evaluates.
fn evaluate(range: &Option<Range>, wanted: bool) -> (i: Option<Interval>)
    ensures
        span_of(i) == evaluated(*range, wanted),
        i.is_some() ==> i.unwrap().canonical(),
{
    match range {
        Some(r) => if wanted {
            Some(r.eval())
        } else {
            None
        },
        None => None,
    }
}

impl Analyzer {
    /// Whether the handle has a version that restricts the one before it.
    pub fn is_narrowing_version(&self, v: usize) -> (b: bool)
        ensures
            b == narrows(self@.nodes, v),
    {
        match self.try_node(v) {
            Some(Node::ContextVar(var)) => match var.origin {
                Origin::Branch => true,
                Origin::Assertion => true,
                _ => false,
            },
            _ => false,
        }
    }

    /// The version that a version replaces, where that came earlier in the graph.
    pub fn earlier_version(&self, v: usize) -> (r: Option<usize>)
        ensures
            r == earlier(self@.nodes, v),
            r.is_some() ==> r.unwrap() < v,
    {
        match self.try_node(v) {
            Some(Node::ContextVar(var)) => match var.prev {
                Some(p) => {
                    let version = p < v && match self.try_node(p) {
                        Some(Node::ContextVar(_)) => true,
                        _ => false,
                    };
                    if version {
                        Some(p)
                    } else {
                        None
                    }
                },
                None => None,
            },
            _ => None,
        }
    }

    /// The version that the narrowing of a version started from, where there is one, and
    /// the narrowing steps that led to the version, the latest first.
    pub fn narrowing_chain(&self, v: usize) -> (r: (Option<usize>, Vec<Step>))
        ensures
            r.0 == chain_first(self@.nodes, v),
            r.1@ == chain_steps(self@.nodes, v),
    {
        let mut current: usize = v;
        let mut steps: Vec<Step> = Vec::new();
        proof {
            assert(steps@ + chain_steps(self@.nodes, current) =~= chain_steps(self@.nodes, v));
        }
        loop
            invariant
                chain_first(self@.nodes, v) == chain_first(self@.nodes, current),
                chain_steps(self@.nodes, v) == steps@ + chain_steps(self@.nodes, current),
            decreases current,
        {
            if !self.is_narrowing_version(current) {
                proof {
                    assert(steps@ + Seq::<Step>::empty() =~= steps@);
                }
                let first = match self.try_node(current) {
                    Some(Node::ContextVar(_)) => Some(current),
                    _ => None,
                };
                return (first, steps);
            }
            let step = match self.node(current) {
                Node::ContextVar(var) => Step {
                    version: current,
                    origin: var.origin,
                    loc: var.loc,
                },
                _ => Step { version: current, origin: Origin::Declared, loc: Loc::Implicit },
            };
            match self.earlier_version(current) {
                Some(p) => {
                    proof {
                        let rest = chain_steps(self@.nodes, p);
                        assert(steps@.push(step) + rest =~= steps@ + (seq![step] + rest));
                    }
                    steps.push(step);
                    current = p;
                },
                None => {
                    proof {
                        assert(steps@.push(step) =~= steps@ + (seq![step] + Seq::<Step>::empty()));
                    }
                    steps.push(step);
                    return (None, steps);
                },
            }
        }
    }

    /// The report about a version in a context.
    pub fn report(&self, ctx: usize, v: usize, config: ReportConfig) -> (r: Report)
        requires
            var_at(self@.nodes, v).is_some(),
        ensures
            r@ == report_of(self@.nodes, ctx, v, config),
            r.bounds.is_some() ==> r.bounds.unwrap().canonical(),
            r.initial_bounds.is_some() ==> r.initial_bounds.unwrap().canonical(),
    {
        let (first, steps) = self.narrowing_chain(v);
        let initial = match self.node(v) {
            Node::ContextVar(var) => match &var.range {
                Some(r) => if config.show_initial_bounds {
                    Some(r.base())
                } else {
                    None
                },
                None => None,
            },
            _ => None,
        };
        let initial_bounds = evaluate(&initial, config.eval_bounds);
        match self.node(v) {
            Node::ContextVar(var) => Report {
                ctx,
                var: v,
                name: copy_text(&var.name),
                loc: var.loc,
                domain: var.domain,
                origin: var.origin,
                range: copy_range(&var.range),
                bounds: evaluate(&var.range, config.eval_bounds),
                steps,
                first,
                initial,
                initial_bounds,
            },
            _ => Report {
                ctx,
                var: v,
                name: None,
                loc: Loc::Implicit,
                domain: None,
                origin: Origin::Declared,
                range: None,
                bounds: None,
                steps,
                first,
                initial,
                initial_bounds,
            },
        }
    }

    /// Whether a query from `root` reaches the context.
    pub fn reaches(&self, root: usize, ctx: usize, config: ReportConfig) -> (b: bool)
        ensures
            b == in_scope(self@.nodes, root, ctx, config),
    {
        if ctx == root {
            true
        } else if config.show_subctxs {
            let context = match self.try_node(ctx) {
                Some(Node::Context(_)) => true,
                _ => false,
            };
            context && self.descends_from(ctx, root)
        } else {
            false
        }
    }

    /// The ranges of a named variable: one report for each context that the query
    /// reaches, from `ctx` down, in which the variable is live and shown, in the order of
    /// the handles. A name that is live nowhere gives no report.
    pub fn bounds_for(&self, ctx: usize, name: &String, config: ReportConfig) -> (r: Vec<Report>)
        ensures
            views(r@) == bounds_of(self@.nodes, ctx, name@, config),
            all_canonical(r@),
    {
        let mut out: Vec<Report> = Vec::new();
        let count = self.node_count();
        let mut i: usize = 0;
        proof {
            assert(views(out@) =~= Seq::<ReportView>::empty());
        }
        while i < count
            invariant
                i <= count,
                count == self@.nodes.len(),
                all_canonical(out@),
                views(out@) == bounds_upto(self@.nodes, ctx, name@, config, i as nat),
            decreases count - i,
        {
            match self.resolve(i, name) {
                Some(v) => {
                    let shown = self.reaches(ctx, i, config) && match self.node(v) {
                        Node::ContextVar(var) => is_visible(var, config),
                        _ => false,
                    };
                    if shown {
                        let report = self.report(i, v, config);
                        proof {
                            assert(views(out@.push(report)) =~= views(out@).push(report@));
                        }
                        out.push(report);
                    }
                },
                None => {},
            }
            i = i + 1;
        }
        out
    }

    /// Whether the version counts in a context.
    pub fn counts(&self, ctx: usize, v: usize) -> (b: bool)
        ensures
            b == counts_in(self@.nodes, ctx, v),
    {
        match self.try_node(v) {
            Some(Node::ContextVar(var)) => match &var.name {
                Some(name) => {
                    var.tmp_of.is_none() && match self.resolve(ctx, name) {
                        Some(live) => live == v,
                        None => false,
                    }
                },
                None => var.ctx == ctx,
            },
            _ => false,
        }
    }

    /// Adds the reports for one context to `out`.
    fn context_bounds(&self, ctx: usize, config: ReportConfig, out: &mut Vec<Report>)
        requires
            all_canonical(old(out)@),
        ensures
            all_canonical(final(out)@),
            views(final(out)@) == views(old(out)@) + context_reports(
                self@.nodes,
                ctx,
                config,
                self@.nodes.len(),
            ),
    {
        let count = self.node_count();
        let mut v: usize = 0;
        let ghost before = views(out@);
        proof {
            assert(before + Seq::<ReportView>::empty() =~= before);
        }
        while v < count
            invariant
                v <= count,
                count == self@.nodes.len(),
                all_canonical(out@),
                views(out@) == before + context_reports(self@.nodes, ctx, config, v as nat),
            decreases count - v,
        {
            if self.counts(ctx, v) {
                let shown = match self.node(v) {
                    Node::ContextVar(var) => is_visible(var, config),
                    _ => false,
                };
                if shown {
                    let report = self.report(ctx, v, config);
                    proof {
                        assert(views(out@.push(report)) =~= views(out@).push(report@));
                        assert((before + context_reports(self@.nodes, ctx, config, v as nat)).push(
                            report@,
                        ) =~= before + context_reports(self@.nodes, ctx, config, v as nat).push(
                            report@,
                        ));
                    }
                    out.push(report);
                }
            }
            v = v + 1;
        }
    }

    /// The ranges of every variable: for each context that the query reaches, from `ctx`
    /// down and in the order of the handles, one report for each version that counts in
    /// the context and is shown.
    pub fn bounds_for_all(&self, ctx: usize, config: ReportConfig) -> (r: Vec<Report>)
        ensures
            views(r@) == all_bounds(self@.nodes, ctx, config),
            all_canonical(r@),
    {
        let mut out: Vec<Report> = Vec::new();
        let count = self.node_count();
        let mut i: usize = 0;
        proof {
            assert(views(out@) =~= Seq::<ReportView>::empty());
        }
        while i < count
            invariant
                i <= count,
                count == self@.nodes.len(),
                all_canonical(out@),
                views(out@) == all_upto(self@.nodes, ctx, config, i as nat),
            decreases count - i,
        {
            if self.reaches(ctx, i, config) {
                self.context_bounds(i, config, &mut out);
            }
            i = i + 1;
        }
        out
    }

    /// The entry contexts of the functions, in the order of their handles.
    pub fn entry_contexts(&self) -> (r: Vec<usize>)
        ensures
            r@ == entries_upto(self@.nodes, self@.nodes.len()),
    {
        let mut out: Vec<usize> = Vec::new();
        let count = self.node_count();
        let mut i: usize = 0;
        while i < count
            invariant
                i <= count,
                count == self@.nodes.len(),
                out@ == entries_upto(self@.nodes, i as nat),
            decreases count - i,
        {
            match self.node(i) {
                Node::Context(c) => {
                    match c.branch {
                        Branch::Entry => {
                            out.push(i);
                        },
                        _ => {},
                    }
                },
                _ => {},
            }
            i = i + 1;
        }
        out
    }
}

/// Asking twice for the ranges of every variable of the same graph gives the same reports.
pub proof fn lemma_bounds_repeatable(
    nodes: Seq<Node>,
    ctx: usize,
    config: ReportConfig,
    first: Seq<Report>,
    second: Seq<Report>,
)
    requires
        views(first) == all_bounds(nodes, ctx, config),
        views(second) == all_bounds(nodes, ctx, config),
    ensures
        views(first) == views(second),
        first.len() == second.len(),
{
    assert(views(first).len() == first.len());
    assert(views(second).len() == second.len());
}

/// A version whose range is one literal number is shown exactly where the query shows
/// constants, a temporary exactly where it shows temporaries.
pub proof fn lemma_constant_visibility(var: ContextVar, config: ReportConfig)
    ensures
        is_const(var) && var.tmp_of.is_none() ==> (visible(var, config) <==> config.show_consts),
        !is_const(var) && var.tmp_of.is_some() ==> (visible(var, config) <==> config.show_tmps),
        !is_const(var) && var.tmp_of.is_none() ==> visible(var, config),
{
}

/// Whether the report is about a version whose range is one literal number.
pub open spec fn of_constant(r: ReportView) -> bool {
    match r.range {
        Some(x) => x.is_exact(),
        None => false,
    }
}

/// The test that a report is about no constant.
pub open spec fn no_constant() -> spec_fn(ReportView) -> bool {
    |r: ReportView| !of_constant(r)
}

/// The configuration that differs only in showing constants, or not.
pub open spec fn with_constants(config: ReportConfig, shown: bool) -> ReportConfig {
    ReportConfig { show_consts: shown, ..config }
}

/// For one context, the reports of a query that hides constants are those of the query
/// that shows them, without the reports about constants, each as it is.
pub proof fn lemma_context_constants(
    nodes: Seq<Node>,
    ctx: usize,
    config: ReportConfig,
    upto: nat,
)
    ensures
        context_reports(nodes, ctx, with_constants(config, false), upto) == context_reports(
            nodes,
            ctx,
            with_constants(config, true),
            upto,
        ).filter(no_constant()),
    decreases upto,
{
    reveal(Seq::filter);
    if upto > 0 {
        lemma_context_constants(nodes, ctx, config, (upto - 1) as nat);
        let shown = with_constants(config, true);
        let hidden = with_constants(config, false);
        let rest = context_reports(nodes, ctx, shown, (upto - 1) as nat);
        let v = (upto - 1) as usize;
        if counts_in(nodes, ctx, v) && visible(var_at(nodes, v).unwrap(), shown) {
            let report = report_of(nodes, ctx, v, shown);
            assert(report == report_of(nodes, ctx, v, hidden));
            assert(rest.push(report).drop_last() =~= rest);
            assert(of_constant(report) == is_const(var_at(nodes, v).unwrap()));
        }
    }
}

/// Constants are reported on request only: the reports of a query that hides constants
/// are those of the query that shows them, without the reports about versions whose
/// range is one literal number; every other report is the same under both.
pub proof fn lemma_constants_on_request(nodes: Seq<Node>, root: usize, config: ReportConfig)
    ensures
        all_bounds(nodes, root, with_constants(config, false)) == all_bounds(
            nodes,
            root,
            with_constants(config, true),
        ).filter(no_constant()),
{
    lemma_constants_upto(nodes, root, config, nodes.len());
}

/// The same for the contexts with a handle below `upto`.
pub proof fn lemma_constants_upto(nodes: Seq<Node>, root: usize, config: ReportConfig, upto: nat)
    ensures
        all_upto(nodes, root, with_constants(config, false), upto) == all_upto(
            nodes,
            root,
            with_constants(config, true),
            upto,
        ).filter(no_constant()),
    decreases upto,
{
    reveal(Seq::filter);
    if upto > 0 {
        lemma_constants_upto(nodes, root, config, (upto - 1) as nat);
        let shown = with_constants(config, true);
        let ctx = (upto - 1) as usize;
        if in_scope(nodes, root, ctx, shown) {
            lemma_context_constants(nodes, ctx, config, nodes.len());
            Seq::filter_distributes_over_add(
                all_upto(nodes, root, shown, (upto - 1) as nat),
                context_reports(nodes, ctx, shown, nodes.len()),
                no_constant(),
            );
        }
    }
}

/// A report about a version whose range is one literal number gives, where the query
/// evaluates, exactly that number as both ends, unflagged.
pub proof fn lemma_constant_report(nodes: Seq<Node>, ctx: usize, v: usize, config: ReportConfig)
    requires
        var_at(nodes, v).is_some(),
        is_const(var_at(nodes, v).unwrap()),
        config.eval_bounds,
    ensures
        of_constant(report_of(nodes, ctx, v, config)),
        report_of(nodes, ctx, v, config).bounds.is_some(),
        report_of(nodes, ctx, v, config).bounds.unwrap().min == report_of(
            nodes,
            ctx,
            v,
            config,
        ).bounds.unwrap().max,
        !report_of(nodes, ctx, v, config).bounds.unwrap().flagged,
{
}

} // verus!
