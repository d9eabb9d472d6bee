use vstd::prelude::*;

verus! {

/// What became of one ray sent into the scene.
#[derive(Debug, Clone, Copy, PartialEq, Eq, Structural)]
pub enum Bounce {
    /// The ray hit no object: it sees the sky.
    Missed,
    /// The ray hit an object whose material absorbed it.
    Absorbed,
    /// The ray hit an object whose material sent out a new ray with an attenuation.
    Scattered,
}

/// How a path ends. Its color is the product of the attenuations of its scatterings,
/// times black or times the sky color in the direction of its last ray.
#[derive(Debug, Clone, Copy, PartialEq, Eq, Structural)]
pub enum PathEnd {
    Black,
    Sky,
}

/// The radiance estimate of a ray, given what each ray of its path met (`bounces[0]` for
/// the first ray, `bounces[1]` for the ray it scattered into, and so on): how the path ends
/// and how many attenuations multiply its color. `None` when `bounces` ends before the
/// path does.
///
/// With no bounce left the color is black; a miss sees the sky; an absorbed ray is black;
/// a scattered ray is attenuated and traced on with one bounce less.
pub open spec fn estimate(bounce_depth: nat, bounces: Seq<Bounce>) -> Option<(PathEnd, nat)>
    decreases bounce_depth,
{
    if bounce_depth == 0 {
        Some((PathEnd::Black, 0))
    } else if bounces.len() == 0 {
        None
    } else {
        match bounces[0] {
            Bounce::Missed => Some((PathEnd::Sky, 0)),
            Bounce::Absorbed => Some((PathEnd::Black, 0)),
            Bounce::Scattered => match estimate((bounce_depth - 1) as nat, bounces.drop_first()) {
                Some((end, n)) => Some((end, n + 1)),
                None => None,
            },
        }
    }
}

/// The estimator as a loop: either a ray is still to be traced, with `remaining` bounces
/// left for it and what it scatters into, or the path has ended.
#[derive(Debug, Clone, Copy, PartialEq, Eq, Structural)]
pub enum PathState {
    Tracing { remaining: u32 },
    Done { end: PathEnd },
}

/// The state of a path before its first ray is traced.
pub open spec fn start(bounce_depth: u32) -> PathState {
    if bounce_depth == 0 {
        PathState::Done { end: PathEnd::Black }
    } else {
        PathState::Tracing { remaining: bounce_depth }
    }
}

/// The state once the ray being traced has met `bounce`; an ended path stays as it is.
pub open spec fn step(state: PathState, bounce: Bounce) -> PathState {
    match state {
        PathState::Done { .. } => state,
        PathState::Tracing { remaining } => match bounce {
            Bounce::Missed => PathState::Done { end: PathEnd::Sky },
            Bounce::Absorbed => PathState::Done { end: PathEnd::Black },
            Bounce::Scattered => if remaining <= 1 {
                PathState::Done { end: PathEnd::Black }
            } else {
                PathState::Tracing { remaining: (remaining - 1) as u32 }
            },
        },
    }
}

/// The state after the rays of the path have met `bounces`, one after another.
pub open spec fn run(state: PathState, bounces: Seq<Bounce>) -> PathState
    decreases bounces.len(),
{
    if bounces.len() == 0 {
        state
    } else {
        run(step(state, bounces[0]), bounces.drop_first())
    }
}

impl PathState {
    /// Starts a path that may scatter `bounce_depth` times at most.
    pub fn new(bounce_depth: u32) -> (s: PathState)
        ensures
            s == start(bounce_depth),
    {
        if bounce_depth == 0 {
            PathState::Done { end: PathEnd::Black }
        } else {
            PathState::Tracing { remaining: bounce_depth }
        }
    }

    /// Takes in what the ray being traced met.
    pub fn advance(&self, bounce: Bounce) -> (s: PathState)
        ensures
            s == step(*self, bounce),
    {
        match *self {
            PathState::Done { .. } => *self,
            PathState::Tracing { remaining } => match bounce {
                Bounce::Missed => PathState::Done { end: PathEnd::Sky },
                Bounce::Absorbed => PathState::Done { end: PathEnd::Black },
                Bounce::Scattered => if remaining <= 1 {
                    PathState::Done { end: PathEnd::Black }
                } else {
                    PathState::Tracing { remaining: remaining - 1 }
                },
            },
        }
    }

    /// How the path ended, or `None` while a ray is still to be traced.
    pub fn end(&self) -> (e: Option<PathEnd>)
        ensures
            e == match *self {
                PathState::Done { end } => Some(end),
                PathState::Tracing { .. } => None::<PathEnd>,
            },
    {
        match *self {
            PathState::Done { end } => Some(end),
            PathState::Tracing { .. } => None,
        }
    }
}

/// An ended path stays ended, whatever further bounces it is told of.
pub proof fn lemma_done_is_final(end: PathEnd, bounces: Seq<Bounce>)
    ensures
        run(PathState::Done { end }, bounces) == (PathState::Done { end }),
    decreases bounces.len(),
{
    if bounces.len() > 0 {
        lemma_done_is_final(end, bounces.drop_first());
    }
}

/// The loop computes the estimate: wherever the estimate is defined, running the loop on
/// the same bounces ends the path the same way.
pub proof fn lemma_loop_follows_estimate(bounce_depth: u32, bounces: Seq<Bounce>)
    ensures
        estimate(bounce_depth as nat, bounces) matches Some((end, _)) ==> run(
            start(bounce_depth),
            bounces,
        ) == (PathState::Done { end }),
    decreases bounce_depth,
{
    if bounce_depth == 0 {
        lemma_done_is_final(PathEnd::Black, bounces);
    } else if bounces.len() > 0 {
        let rest = bounces.drop_first();
        match bounces[0] {
            Bounce::Missed => lemma_done_is_final(PathEnd::Sky, rest),
            Bounce::Absorbed => lemma_done_is_final(PathEnd::Black, rest),
            Bounce::Scattered => lemma_loop_follows_estimate((bounce_depth - 1) as u32, rest),
        }
    }
}

/// With a bounce depth of zero a ray is black, whatever the scene holds: no ray is traced.
pub proof fn lemma_zero_depth_is_black(bounces: Seq<Bounce>)
    ensures
        estimate(0, bounces) == Some((PathEnd::Black, 0nat)),
        run(start(0), bounces) == (PathState::Done { end: PathEnd::Black }),
{
    lemma_done_is_final(PathEnd::Black, bounces);
}

/// A ray that hits nothing shows the sky color, unattenuated, whenever the bounce depth
/// allows it to be traced at all.
pub proof fn lemma_miss_shows_sky(bounce_depth: nat, bounces: Seq<Bounce>)
    requires
        bounce_depth > 0,
        bounces.len() > 0,
        bounces[0] == Bounce::Missed,
    ensures
        estimate(bounce_depth, bounces) == Some((PathEnd::Sky, 0nat)),
{
}

/// The bounce depth bounds a path: the outcomes of `bounce_depth` rays always settle it,
/// it is attenuated at most `bounce_depth` times, and it only reaches the sky with fewer
/// scatterings than that.
pub proof fn lemma_depth_bounds_path(bounce_depth: nat, bounces: Seq<Bounce>)
    requires
        bounces.len() >= bounce_depth,
    ensures
        estimate(bounce_depth, bounces) matches Some((end, n)) && n <= bounce_depth && (end
            == PathEnd::Sky ==> n < bounce_depth),
    decreases bounce_depth,
{
    if bounce_depth > 0 {
        lemma_depth_bounds_path((bounce_depth - 1) as nat, bounces.drop_first());
    }
}

} // verus!
