use vstd::prelude::*;

verus! {

/// What tracing one ray against the scene found.
#[derive(Clone, Copy, Debug, PartialEq, Eq, Structural)]
pub enum TraceEvent {
    /// No surface lies ahead: the ray sees the background.
    Miss,
    /// A surface was hit and its material absorbed the ray.
    Absorbed,
    /// A surface was hit and its material sent a new ray on.
    Scattered,
}

/// How a path ends.
#[derive(Clone, Copy, Debug, PartialEq, Eq, Structural)]
pub enum PathEnd {
    /// The path carries no light: absorbed, or cut off at the depth bound.
    Black,
    /// The path carries the background color through its attenuations.
    Background,
}

/// How a path that may scatter `depth` more times ends after `events`,
/// or `None` while it is still being traced. A path with no depth left is
/// black before anything is traced.
pub open spec fn path_end(depth: nat, events: Seq<TraceEvent>) -> Option<PathEnd>
    decreases events.len(),
{
    if depth == 0 {
        Some(PathEnd::Black)
    } else if events.len() == 0 {
        None
    } else {
        match events[0] {
            TraceEvent::Miss => Some(PathEnd::Background),
            TraceEvent::Absorbed => Some(PathEnd::Black),
            TraceEvent::Scattered => path_end((depth - 1) as nat, events.drop_first()),
        }
    }
}

/// Every event is a scattering.
pub open spec fn all_scattered(events: Seq<TraceEvent>) -> bool {
    forall|i: int| 0 <= i < events.len() ==> events[i] == TraceEvent::Scattered
}

/// The decisions of one path through the scene: whether to trace again, and
/// how the path ends.
pub struct PathTracer {
    depth_left: u32,
    end: Option<PathEnd>,
    max_depth: Ghost<nat>,
    events: Ghost<Seq<TraceEvent>>,
}

proof fn lemma_path_end_scattered(depth: nat, done: Seq<TraceEvent>, rest: Seq<TraceEvent>)
    requires
        all_scattered(done),
        done.len() < depth,
    ensures
        path_end(depth, done + rest) == path_end((depth - done.len()) as nat, rest),
    decreases done.len(),
{
    if done.len() > 0 {
        assert((done + rest).drop_first() =~= done.drop_first() + rest);
        assert((done + rest)[0] == done[0]);
        lemma_path_end_scattered((depth - 1) as nat, done.drop_first(), rest);
    } else {
        assert(done + rest =~= rest);
    }
}

impl PathTracer {
    /// The depth bound the path started with.
    pub closed spec fn max_depth_spec(&self) -> nat {
        self.max_depth@
    }

    /// The events recorded so far, in order.
    pub closed spec fn events(&self) -> Seq<TraceEvent> {
        self.events@
    }

    /// How the path has ended so far.
    pub open spec fn end_spec(&self) -> Option<PathEnd> {
        path_end(self.max_depth_spec(), self.events())
    }

    pub closed spec fn wf(&self) -> bool {
        &&& self.end == path_end(self.max_depth@, self.events@)
        &&& self.end is None ==> {
            &&& all_scattered(self.events@)
            &&& self.events@.len() < self.max_depth@
            &&& self.depth_left == self.max_depth@ - self.events@.len()
        }
    }

    /// A path that may scatter at most `max_depth` times.
    pub fn new(max_depth: u32) -> (p: PathTracer)
        ensures
            p.wf(),
            p.max_depth_spec() == max_depth,
            p.events() == Seq::<TraceEvent>::empty(),
    {
        let end = if max_depth == 0 {
            Some(PathEnd::Black)
        } else {
            None
        };
        PathTracer {
            depth_left: max_depth,
            end,
            max_depth: Ghost(max_depth as nat),
            events: Ghost(Seq::empty()),
        }
    }

    /// How the path has ended, or `None` while the next ray must be traced.
    pub fn end(&self) -> (e: Option<PathEnd>)
        requires
            self.wf(),
        ensures
            e == self.end_spec(),
    {
        self.end
    }

    /// Records what tracing the current ray found.
    pub fn record(&mut self, event: TraceEvent)
        requires
            old(self).wf(),
            old(self).end_spec() is None,
        ensures
            final(self).wf(),
            final(self).max_depth_spec() == old(self).max_depth_spec(),
            final(self).events() == old(self).events().push(event),
    {
        proof {
            let done = self.events@;
            lemma_path_end_scattered(self.max_depth@, done, seq![event]);
            assert(done + seq![event] =~= done.push(event));
            let d = (self.max_depth@ - done.len()) as nat;
            assert(seq![event].drop_first() =~= Seq::<TraceEvent>::empty());
            if event == TraceEvent::Scattered && d > 1 {
                lemma_path_end_scattered(self.max_depth@, done.push(event), Seq::empty());
                assert(done.push(event) + Seq::<TraceEvent>::empty() =~= done.push(event));
            }
        }
        self.events = Ghost(self.events@.push(event));
        match event {
            TraceEvent::Miss => {
                self.end = Some(PathEnd::Background);
            },
            TraceEvent::Absorbed => {
                self.end = Some(PathEnd::Black);
            },
            TraceEvent::Scattered => {
                self.depth_left = self.depth_left - 1;
                if self.depth_left == 0 {
                    self.end = Some(PathEnd::Black);
                }
            },
        }
    }
}

/// A path with no depth left is black, whatever the scene would have given.
pub proof fn lemma_depth_zero_is_black(events: Seq<TraceEvent>)
    ensures
        path_end(0, events) == Some(PathEnd::Black),
{
}

/// A path has ended once it has traced as many rays as its depth bound.
pub proof fn lemma_path_bounded(depth: nat, events: Seq<TraceEvent>)
    requires
        events.len() >= depth,
    ensures
        path_end(depth, events) is Some,
    decreases events.len(),
{
    if depth > 0 {
        lemma_path_bounded((depth - 1) as nat, events.drop_first());
    }
}

} // verus!
