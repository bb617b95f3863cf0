//! The materialization gate: a request's life from Pending to
//! Materialized.
//!
//! A map request registers a map description resource and a companion
//! tileset image resource. Once per scheduling tick the request is
//! offered whatever has resolved so far; it materializes on the first
//! tick at which both resources are resolved, exactly once, and is never
//! reconsidered afterwards. A request whose resources never resolve
//! stays Pending forever; there is no timeout and no error path here.
//! Polling the host's resource tables and performing the tick loop is
//! the caller's business: this module holds the decision and the
//! transition.

use vstd::prelude::*;

use crate::materialize::layer_instance_matches;
use crate::materialize::materialize;
use crate::materialize::MapInstance;
use crate::types::SpriteFusionMap;

verus! {

/// The state of one map request.
#[derive(Debug, Clone, Copy, PartialEq, Eq, Structural)]
pub enum RequestState {
    /// At least one of the two resources has not resolved yet; nothing
    /// has been emitted.
    Pending,
    /// The hierarchy has been emitted; the request is never reconsidered.
    Materialized,
}

/// One pending or finished map request.
#[derive(Debug, Clone, Copy, PartialEq, Eq, Structural)]
pub struct PendingSpriteFusionMap {
    /// Where the request stands.
    pub state: RequestState,
}

impl PendingSpriteFusionMap {
    /// A fresh request: Pending, nothing emitted.
    pub fn new() -> (r: PendingSpriteFusionMap)
        ensures
            r.state == RequestState::Pending,
    {
        PendingSpriteFusionMap { state: RequestState::Pending }
    }
}

/// The state a request moves to when offered the readiness of its two
/// resources: Pending becomes Materialized exactly when both are
/// resolved, and Materialized never moves again.
pub open spec fn next_state(s: RequestState, map_ready: bool, image_ready: bool) -> RequestState {
    match s {
        RequestState::Pending => if map_ready && image_ready {
            RequestState::Materialized
        } else {
            RequestState::Pending
        },
        RequestState::Materialized => RequestState::Materialized,
    }
}

/// Whether a tick emits the hierarchy: exactly on the move from Pending
/// to Materialized.
pub open spec fn tick_emits(s: RequestState, map_ready: bool, image_ready: bool) -> bool {
    s == RequestState::Pending && map_ready && image_ready
}

/// Offer one scheduling tick to a request: `map` carries the map
/// description when it has resolved, `image_ready` says whether the
/// companion image has. The hierarchy is returned exactly on the tick
/// that moves the request from Pending to Materialized; every other
/// tick leaves the request as it stands and emits nothing. The bounds
/// asked of a resolved map are the machine limits of
/// [`materialize`].
pub fn tick_request(
    req: &mut PendingSpriteFusionMap,
    map: Option<&SpriteFusionMap>,
    image_ready: bool,
) -> (r: Option<MapInstance>)
    requires
        map matches Some(m) ==> (m.map_width as int) * (m.map_height as int) <= usize::MAX
            && m.layers@.len() <= i64::MAX,
    ensures
        final(req).state == next_state(old(req).state, map is Some, image_ready),
        r is Some == tick_emits(old(req).state, map is Some, image_ready),
        match r {
            Some(inst) => map matches Some(m) && inst.marker.map@ == m@ && inst.layers@.len()
                == m@.layers.len() && (forall|i: int|
                0 <= i < m@.layers.len() ==> layer_instance_matches(
                    m@,
                    i,
                    #[trigger] inst.layers@[i],
                )),
            None => true,
        },
{
    match req.state {
        RequestState::Materialized => None,
        RequestState::Pending => {
            if !image_ready {
                return None;
            }
            match map {
                None => None,
                Some(m) => {
                    let inst = materialize(m);
                    req.state = RequestState::Materialized;
                    Some(inst)
                },
            }
        },
    }
}

/// Run a request through a sequence of ticks, each tick carrying the
/// readiness of the two resources at that moment.
pub open spec fn run_ticks(s: RequestState, ticks: Seq<(bool, bool)>) -> RequestState
    decreases ticks.len(),
{
    if ticks.len() == 0 {
        s
    } else {
        run_ticks(next_state(s, ticks.first().0, ticks.first().1), ticks.drop_first())
    }
}

/// How many of a sequence of ticks emit the hierarchy.
pub open spec fn emit_count(s: RequestState, ticks: Seq<(bool, bool)>) -> int
    decreases ticks.len(),
{
    if ticks.len() == 0 {
        0
    } else {
        (if tick_emits(s, ticks.first().0, ticks.first().1) {
            1int
        } else {
            0int
        }) + emit_count(next_state(s, ticks.first().0, ticks.first().1), ticks.drop_first())
    }
}

/// Materialization gating: a Pending request whose companion image
/// never resolves stays Pending, however many ticks elapse.
pub proof fn lemma_gating(ticks: Seq<(bool, bool)>)
    requires
        forall|i: int| 0 <= i < ticks.len() ==> !(#[trigger] ticks[i]).1,
    ensures
        run_ticks(RequestState::Pending, ticks) == RequestState::Pending,
        emit_count(RequestState::Pending, ticks) == 0,
    decreases ticks.len(),
{
    if ticks.len() > 0 {
        assert(!ticks.first().1);
        assert(forall|i: int|
            0 <= i < ticks.drop_first().len() ==> !(#[trigger] ticks.drop_first()[i]).1);
        lemma_gating(ticks.drop_first());
    }
}

/// A Materialized request never emits again and never leaves its state,
/// however many ticks elapse.
pub proof fn lemma_materialized_is_terminal(ticks: Seq<(bool, bool)>)
    ensures
        run_ticks(RequestState::Materialized, ticks) == RequestState::Materialized,
        emit_count(RequestState::Materialized, ticks) == 0,
    decreases ticks.len(),
{
    if ticks.len() > 0 {
        lemma_materialized_is_terminal(ticks.drop_first());
    }
}

/// Idempotent single materialization: over any sequence of ticks, a
/// fresh Pending request emits its hierarchy at most once.
pub proof fn lemma_single_materialization(ticks: Seq<(bool, bool)>)
    ensures
        0 <= emit_count(RequestState::Pending, ticks) <= 1,
    decreases ticks.len(),
{
    if ticks.len() > 0 {
        if tick_emits(RequestState::Pending, ticks.first().0, ticks.first().1) {
            lemma_materialized_is_terminal(ticks.drop_first());
        } else {
            lemma_single_materialization(ticks.drop_first());
        }
    }
}

} // verus!
