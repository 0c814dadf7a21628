use core::ops::Range;
use vstd::prelude::*;

verus! {

/// How much of a parse to trace, from nothing (`Nothing`) to every parser.
#[derive(Debug, Copy, Clone, PartialEq, Eq, PartialOrd, Ord)]
pub enum TraceLevel {
    Nothing,
    Explicit,
    Normal,
    All,
}

/// The rank of a level in the order `Nothing < Explicit < Normal < All`.
pub open spec fn level_rank(l: TraceLevel) -> int {
    match l {
        TraceLevel::Nothing => 0,
        TraceLevel::Explicit => 1,
        TraceLevel::Normal => 2,
        TraceLevel::All => 3,
    }
}

/// The rank of a level in the order `Nothing < Explicit < Normal < All`.
pub fn rank(l: TraceLevel) -> (r: u8)
    ensures
        r == level_rank(l),
{
    match l {
        TraceLevel::Nothing => 0,
        TraceLevel::Explicit => 1,
        TraceLevel::Normal => 2,
        TraceLevel::All => 3,
    }
}

/// What to trace: parsers down to `depth` (all when `None`), up to `level`.
#[derive(Debug)]
pub struct TraceConfig {
    pub depth: Option<usize>,
    pub level: TraceLevel,
}

/// One traced run of a parser.
#[derive(Debug)]
pub struct TraceElement {
    pub parent: isize,
    pub depth: usize,
    pub done: bool,
    pub name: String,
    pub pass: bool,
    pub span: Range<usize>,
    pub level: TraceLevel,
}

/// Records which parsers ran, nested, over which spans, and whether they passed.
#[derive(Debug)]
pub struct Tracer {
    pub config: Option<TraceConfig>,
    pub traces: Vec<TraceElement>,
    current: isize,
    depth: usize,
}

/// The handle of a traced run, to close it with.
#[derive(Debug)]
pub struct TraceId(pub usize);

impl Tracer {
    /// The configuration.
    pub closed spec fn spec_config(&self) -> Option<TraceConfig> {
        self.config
    }

    /// The traced runs so far.
    pub closed spec fn spec_traces(&self) -> Seq<TraceElement> {
        self.traces@
    }

    /// The element of the run that is open innermost (-1 when none is).
    pub closed spec fn spec_current(&self) -> isize {
        self.current
    }

    /// How many runs are open.
    pub closed spec fn spec_depth(&self) -> usize {
        self.depth
    }

    /// The element of the run that is open innermost (-1 when none is).
    pub fn current(&self) -> (c: isize)
        ensures
            c == self.spec_current(),
    {
        self.current
    }

    /// How many runs are open.
    pub fn depth(&self) -> (d: usize)
        ensures
            d == self.spec_depth(),
    {
        self.depth
    }

    /// Sets what to trace; the runs traced so far stay, as do the open run and the depth.
    pub fn set_config(&mut self, config: Option<TraceConfig>)
        ensures
            final(self).spec_config() == config,
            final(self).spec_traces() == old(self).spec_traces(),
            final(self).spec_current() == old(self).spec_current(),
            final(self).spec_depth() == old(self).spec_depth(),
    {
        self.config = config;
    }

    /// A tracer that traces nothing yet.
    pub fn new() -> (t: Self)
        ensures
            t.spec_config() is None,
            t.spec_traces().len() == 0,
            t.spec_current() == -1,
            t.spec_depth() == 0,
    {
        Tracer { config: None, traces: Vec::new(), current: -1, depth: 0 }
    }

    /// `t1` is `t0` with a run of the parser `name` opened at `pos` as element `id`, nested in
    /// the run that was open in `t0`.
    pub open spec fn opened(t0: Tracer, t1: Tracer, name: String, named: bool, pos: usize, id: usize) -> bool {
        &&& id == t0.spec_traces().len()
        &&& t1.spec_traces() == t0.spec_traces().push(
            TraceElement {
                parent: t0.spec_current(),
                depth: (t0.spec_depth() + 1) as usize,
                done: false,
                name: name,
                pass: false,
                span: Range { start: pos, end: pos },
                level: if named {
                    TraceLevel::Explicit
                } else {
                    TraceLevel::Normal
                },
            },
        )
        &&& t1.spec_current() == id
        &&& t1.spec_depth() == t0.spec_depth() + 1
        &&& t1.spec_config() == t0.spec_config()
    }

    /// `t1` is `t0` with the run `id` closed at `pos`, marked as passed or not, and the run it
    /// was nested in open again.
    pub open spec fn closed_run(t0: Tracer, t1: Tracer, id: usize, pos: usize, passed: bool) -> bool {
        &&& t1.spec_traces().len() == t0.spec_traces().len()
        &&& forall|i: int|
            0 <= i < t0.spec_traces().len() && i != id ==> t1.spec_traces()[i] == t0.spec_traces()[i]
        &&& ({
            let e = t0.spec_traces()[id as int];
            let f = t1.spec_traces()[id as int];
            &&& f.parent == e.parent
            &&& f.depth == e.depth
            &&& f.done
            &&& f.name@ == e.name@
            &&& f.pass == passed
            &&& f.span.start == e.span.start
            &&& f.span.end == pos
            &&& f.level == e.level
        })
        &&& t1.spec_current() == t0.spec_traces()[id as int].parent
        &&& t1.spec_depth() == t0.spec_depth() - 1
        &&& t1.spec_config() == t0.spec_config()
    }

    /// Whether a run at the tracer's present depth, of a parser that is named or not, is traced.
    pub open spec fn traces_run(&self, named: bool) -> bool {
        &&& self.spec_config() is Some
        &&& (self.spec_config()->0.depth matches Some(d) ==> self.spec_depth() < d)
        &&& level_rank(self.spec_config()->0.level) >= (if named {
            1int
        } else {
            2int
        })
    }

    /// Opens a traced run of the parser called `name` at `pos`, when the configuration traces
    /// it; the new element is nested in the run that was open.
    pub fn enter(&mut self, name: String, named: bool, pos: usize) -> (id: Option<TraceId>)
        requires
            old(self).spec_depth() < usize::MAX,
            old(self).spec_traces().len() < isize::MAX,
        ensures
            id is Some <==> old(self).traces_run(named),
            id is None ==> *final(self) == *old(self),
            id matches Some(id) ==> Tracer::opened(*old(self), *final(self), name, named, pos, id.0),
    {
        let (depth_limit, config_level) = match &self.config {
            None => {
                return None;
            },
            Some(config) => (config.depth, config.level),
        };
        if let Some(d) = depth_limit {
            if self.depth >= d {
                return None;
            }
        }
        let level = match named {
            true => TraceLevel::Explicit,
            false => TraceLevel::Normal,
        };
        if rank(config_level) < rank(level) {
            return None;
        }
        let id = self.traces.len();
        self.traces.push(
            TraceElement {
                parent: self.current,
                done: false,
                name,
                pass: false,
                span: Range { start: pos, end: pos },
                depth: self.depth + 1,
                level,
            },
        );
        self.current = id as isize;
        self.depth = self.depth + 1;
        Some(TraceId(id))
    }

    /// Closes the traced run `id` at `pos`, recording whether it passed; the run it was nested in
    /// becomes the open one.
    pub fn exit(&mut self, id: TraceId, pos: usize, passed: bool)
        requires
            id.0 < old(self).spec_traces().len(),
            !old(self).spec_traces()[id.0 as int].done,
            old(self).spec_depth() > 0,
        ensures
            Tracer::closed_run(*old(self), *final(self), id.0, pos, passed),
    {
        let e = &self.traces[id.0];
        let updated = TraceElement {
            parent: e.parent,
            depth: e.depth,
            done: true,
            name: e.name.clone(),
            pass: passed,
            span: Range { start: e.span.start, end: pos },
            level: e.level,
        };
        let parent = e.parent;
        self.traces.set(id.0, updated);
        self.current = parent;
        self.depth = self.depth - 1;
    }
}

/// Opening a run and then closing it leaves the tracer with the same open run, depth and
/// configuration as before, and one more element at the end: closed, over the span from the
/// start to the end position, marked passed as the run was.
pub proof fn law_enter_exit_restores(t0: Tracer, t1: Tracer, t2: Tracer, name: String, named: bool, pos: usize, id: usize, end: usize, passed: bool)
    requires
        Tracer::opened(t0, t1, name, named, pos, id),
        Tracer::closed_run(t1, t2, id, end, passed),
    ensures
        t2.spec_current() == t0.spec_current(),
        t2.spec_depth() == t0.spec_depth(),
        t2.spec_config() == t0.spec_config(),
        t2.spec_traces().len() == t0.spec_traces().len() + 1,
        forall|i: int| 0 <= i < t0.spec_traces().len() ==> t2.spec_traces()[i] == t0.spec_traces()[i],
        id == t0.spec_traces().len(),
        t2.spec_traces()[id as int].done,
        t2.spec_traces()[id as int].pass == passed,
        t2.spec_traces()[id as int].span == (Range { start: pos, end: end }),
{
}

/// Whether a configured level covers a run of a named parser (`Explicit`) or of another parser
/// (`Normal`): `Nothing` covers none, `Explicit` only named ones, `Normal` and `All` every run.
pub open spec fn level_covers(config: TraceLevel, named: bool) -> bool {
    match config {
        TraceLevel::Nothing => false,
        TraceLevel::Explicit => named,
        TraceLevel::Normal => true,
        TraceLevel::All => true,
    }
}

/// `enter` opens a traced run (its result is `Some`) exactly when a configuration is set, the
/// tracer is below the configured depth, and the configured level covers the run; so a tracer
/// at level `All` with no depth limit traces every run.
pub proof fn law_enter_traces_by_level(t: Tracer, named: bool)
    ensures
        t.traces_run(named) <==> (t.spec_config() matches Some(c) && (c.depth matches Some(d) ==> t.spec_depth() < d)
            && level_covers(c.level, named)),
        t.spec_config() matches Some(c) && c.depth is None && c.level == TraceLevel::All ==> t.traces_run(named),
{
}

} // verus!
