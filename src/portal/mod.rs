//! The capability interface of portal engines, and the registry that maps a
//! network name to the engine responsible for it.
use vstd::prelude::*;

pub mod awing;

use crate::portal::awing::{fresh_flow, gateway_request_spec, AwingPortal, ConnectFlow, Request};
use crate::text::views;

verus! {

/// What every portal engine offers: a name, the networks it serves, and an
/// exact, case-sensitive membership test on them.
pub trait CaptivePortal {
    /// The networks this engine serves, in configuration order.
    spec fn served(&self) -> Seq<Seq<char>>;

    /// The engine's display name.
    spec fn display_name(&self) -> Seq<char>;

    /// Returns the human-readable name of this engine.
    fn name(&self) -> (r: &str)
        ensures
            r@ == self.display_name(),
    ;

    /// Returns the networks this engine serves.
    fn ssids(&self) -> (r: &[String])
        ensures
            views(r@) == self.served(),
    ;

    /// Whether this engine serves the network `ssid`.
    fn matches_ssid(&self, ssid: &str) -> (r: bool)
        ensures
            r == self.served().contains(ssid@),
    ;
}

/// A portal engine of one of the supported vendors.
pub enum PortalEngine {
    Awing(AwingPortal),
}

impl PortalEngine {
    /// Starts an authentication attempt with this engine.
    pub fn begin_connect(&self) -> (r: (ConnectFlow, Request))
        ensures
            self matches PortalEngine::Awing(p) ==> r.0@ == fresh_flow(p.config.mac_address@),
            r.1@ == gateway_request_spec(),
    {
        match self {
            PortalEngine::Awing(p) => p.begin_connect(),
        }
    }
}

impl CaptivePortal for PortalEngine {
    open spec fn served(&self) -> Seq<Seq<char>> {
        match self {
            PortalEngine::Awing(p) => p.served(),
        }
    }

    open spec fn display_name(&self) -> Seq<char> {
        match self {
            PortalEngine::Awing(p) => p.display_name(),
        }
    }

    fn name(&self) -> (r: &str) {
        match self {
            PortalEngine::Awing(p) => p.name(),
        }
    }

    fn ssids(&self) -> (r: &[String]) {
        match self {
            PortalEngine::Awing(p) => p.ssids(),
        }
    }

    fn matches_ssid(&self, ssid: &str) -> (r: bool) {
        match self {
            PortalEngine::Awing(p) => p.matches_ssid(ssid),
        }
    }
}

/// The position of the first engine of `ps` that serves `ssid`, if any.
pub open spec fn first_serving(ps: Seq<PortalEngine>, ssid: Seq<char>) -> Option<int> {
    if exists|i: int| 0 <= i < ps.len() && ps[i].served().contains(ssid) {
        Some(
            choose|i: int|
                0 <= i < ps.len() && ps[i].served().contains(ssid) && forall|j: int|
                    0 <= j < i ==> !ps[j].served().contains(ssid),
        )
    } else {
        None
    }
}

/// The networks served by the engines of `ps`, engine after engine.
pub open spec fn all_served(ps: Seq<PortalEngine>) -> Seq<Seq<char>>
    decreases ps.len(),
{
    if ps.len() == 0 {
        Seq::empty()
    } else {
        all_served(ps.drop_last()) + ps.last().served()
    }
}

/// The engines known to the supervisor, in registration order.
pub struct PortalRegistry {
    portals: Vec<PortalEngine>,
}

impl PortalRegistry {
    /// The registered engines, in registration order.
    pub closed spec fn engines(&self) -> Seq<PortalEngine> {
        self.portals@
    }

    /// Creates an empty registry.
    pub fn new() -> (r: Self)
        ensures
            r.engines() == Seq::<PortalEngine>::empty(),
    {
        PortalRegistry { portals: Vec::new() }
    }

    /// Appends `portal`; no check for engines that serve the same network.
    pub fn register(&mut self, portal: PortalEngine)
        ensures
            final(self).engines() == old(self).engines().push(portal),
    {
        self.portals.push(portal);
    }

    /// The number of registered engines.
    pub fn len(&self) -> (r: usize)
        ensures
            r == self.engines().len(),
    {
        self.portals.len()
    }

    /// The engine registered at position `i`.
    pub fn portal(&self, i: usize) -> (r: &PortalEngine)
        requires
            i < self.engines().len(),
        ensures
            *r == self.engines()[i as int],
    {
        &self.portals[i]
    }

    /// The position of the first registered engine that serves `ssid`.
    pub fn find_for_ssid(&self, ssid: &str) -> (r: Option<usize>)
        ensures
            r matches Some(i) ==> first_serving(self.engines(), ssid@) == Some(i as int),
            r is None ==> first_serving(self.engines(), ssid@) is None,
    {
        let mut i: usize = 0;
        while i < self.portals.len()
            invariant
                i <= self.portals@.len(),
                forall|j: int| 0 <= j < i ==> !self.portals@[j].served().contains(ssid@),
            decreases self.portals.len() - i,
        {
            if self.portals[i].matches_ssid(ssid) {
                proof {
                    lemma_first_serving_at(self.portals@, ssid@, i as int);
                }
                return Some(i);
            }
            i = i + 1;
        }
        None
    }

    /// Every network served by a registered engine, engine after engine.
    pub fn all_ssids(&self) -> (r: Vec<String>)
        ensures
            views(r@) == all_served(self.engines()),
    {
        let mut out: Vec<String> = Vec::new();
        let mut i: usize = 0;
        while i < self.portals.len()
            invariant
                i <= self.portals@.len(),
                views(out@) == all_served(self.portals@.take(i as int)),
            decreases self.portals.len() - i,
        {
            let ssids = self.portals[i].ssids();
            let ghost before = out@;
            let mut k: usize = 0;
            while k < ssids.len()
                invariant
                    i < self.portals@.len(),
                    k <= ssids@.len(),
                    views(ssids@) == self.portals@[i as int].served(),
                    views(out@) == views(before) + views(ssids@).take(k as int),
                decreases ssids.len() - k,
            {
                let ghost prev = out@;
                out.push(ssids[k].clone());
                proof {
                    assert(views(out@) =~= views(prev).push(ssids@[k as int]@));
                    assert(views(ssids@).take(k + 1) =~= views(ssids@).take(k as int).push(
                        ssids@[k as int]@,
                    ));
                }
                k = k + 1;
            }
            proof {
                let t = self.portals@.take(i + 1);
                assert(t.drop_last() =~= self.portals@.take(i as int));
                assert(views(ssids@).take(k as int) =~= views(ssids@));
            }
            i = i + 1;
        }
        proof {
            assert(self.portals@.take(i as int) =~= self.portals@);
        }
        out
    }

    /// Whether some registered engine serves `ssid`.
    pub fn has_ssid(&self, ssid: &str) -> (r: bool)
        ensures
            r == (first_serving(self.engines(), ssid@) is Some),
    {
        self.find_for_ssid(ssid).is_some()
    }
}

impl Default for PortalRegistry {
    fn default() -> (r: Self)
        ensures
            r.engines() == Seq::<PortalEngine>::empty(),
    {
        PortalRegistry::new()
    }
}

/// When two engines serve the same network, the one registered first, or
/// one registered before it, is found for that network, never the later one.
pub proof fn lemma_first_registered_wins(ps: Seq<PortalEngine>, ssid: Seq<char>, i: int, j: int)
    requires
        0 <= i < j < ps.len(),
        ps[i].served().contains(ssid),
        ps[j].served().contains(ssid),
    ensures
        first_serving(ps, ssid) matches Some(k) && k <= i && k != j,
{
    let k = lemma_first_serving_exists(ps, ssid, i);
    lemma_first_serving_at(ps, ssid, k);
}

/// An engine serving `ssid` at `i` has a first one serving it at or before it.
pub proof fn lemma_first_serving_exists(ps: Seq<PortalEngine>, ssid: Seq<char>, i: int) -> (k: int)
    requires
        0 <= i < ps.len(),
        ps[i].served().contains(ssid),
    ensures
        0 <= k <= i,
        ps[k].served().contains(ssid),
        forall|m: int| 0 <= m < k ==> !#[trigger] ps[m].served().contains(ssid),
    decreases i,
{
    if exists|m: int| 0 <= m < i && #[trigger] ps[m].served().contains(ssid) {
        let m = choose|m: int| 0 <= m < i && #[trigger] ps[m].served().contains(ssid);
        lemma_first_serving_exists(ps, ssid, m)
    } else {
        i
    }
}

/// The engine at `i` is the first one serving `ssid` when it serves it and no
/// engine before it does.
pub proof fn lemma_first_serving_at(ps: Seq<PortalEngine>, ssid: Seq<char>, i: int)
    requires
        0 <= i < ps.len(),
        ps[i].served().contains(ssid),
        forall|j: int| 0 <= j < i ==> !ps[j].served().contains(ssid),
    ensures
        first_serving(ps, ssid) == Some(i),
{
    let k = choose|k: int|
        0 <= k < ps.len() && ps[k].served().contains(ssid) && forall|j: int|
            0 <= j < k ==> !ps[j].served().contains(ssid);
    if k < i {
    } else if k > i {
        assert(!ps[i].served().contains(ssid));
    }
}

} // verus!
