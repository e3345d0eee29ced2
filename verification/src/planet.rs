use vstd::prelude::*;

use crate::kinetics::{body_wf, v3_ok, Body, MAX_COORD, MAX_MASS};
use crate::vec3::Vec3i;

verus! {

/// Fixed-point scale of a colour channel: this value stands for 1.0.
pub const COLOR_SCALE: i64 = 1_000_000;

/// The loading state machine: the world starts in `Loading` and moves to
/// `InSim` exactly once, when every pending definition has resolved.
#[derive(Clone, Copy, PartialEq, Eq, Structural, Debug)]
pub enum AppState {
    Loading,
    InSim,
}

/// A colour, each channel a fixed-point value in `0 ..= COLOR_SCALE`.
#[derive(Clone, Copy, PartialEq, Eq, Structural, Debug)]
pub struct ColorRgb {
    pub r: i64,
    pub g: i64,
    pub b: i64,
}

/// One externally authored body definition, already deserialized and
/// validated; immutable once produced.
#[derive(Clone, Copy, PartialEq, Eq, Structural, Debug)]
pub struct Planet {
    pub mass: i64,
    pub radius: i64,
    pub color: ColorRgb,
    pub velocity: Vec3i,
    pub location: Vec3i,
}

/// A malformed body definition, by first violated constraint.
#[derive(Clone, Copy, PartialEq, Eq, Structural, Debug)]
pub enum ParseError {
    MassOutOfRange,
    RadiusNegative,
    ColorOutOfRange,
    VelocityOutOfRange,
    LocationOutOfRange,
}

pub open spec fn color_wf(c: ColorRgb) -> bool {
    &&& 0 <= c.r <= COLOR_SCALE as int
    &&& 0 <= c.g <= COLOR_SCALE as int
    &&& 0 <= c.b <= COLOR_SCALE as int
}

/// The schema every stored definition satisfies.
pub open spec fn planet_wf(p: Planet) -> bool {
    &&& 0 < p.mass <= MAX_MASS as int
    &&& 0 <= p.radius
    &&& color_wf(p.color)
    &&& v3_ok(p.velocity@)
    &&& v3_ok(p.location@)
}

/// The first constraint a candidate definition violates.
pub open spec fn first_violation(
    mass: i64,
    radius: i64,
    color: ColorRgb,
    velocity: Vec3i,
    location: Vec3i,
) -> ParseError {
    if !(0 < mass <= MAX_MASS as int) {
        ParseError::MassOutOfRange
    } else if radius < 0 {
        ParseError::RadiusNegative
    } else if !color_wf(color) {
        ParseError::ColorOutOfRange
    } else if !v3_ok(velocity@) {
        ParseError::VelocityOutOfRange
    } else {
        ParseError::LocationOutOfRange
    }
}

impl Planet {
    /// Validate a deserialized record against the schema; a definition
    /// exists only if every field is in range.
    pub fn new(mass: i64, radius: i64, color: ColorRgb, velocity: Vec3i, location: Vec3i) -> (r:
        Result<Planet, ParseError>)
        ensures
            r is Ok <==> planet_wf(
                (Planet { mass, radius, color, velocity, location }),
            ),
            r is Ok ==> r == Ok::<Planet, ParseError>(
                Planet { mass, radius, color, velocity, location },
            ),
            r is Err ==> r == Err::<Planet, ParseError>(
                first_violation(mass, radius, color, velocity, location),
            ),
    {
        if !(0 < mass && mass <= MAX_MASS) {
            Err(ParseError::MassOutOfRange)
        } else if radius < 0 {
            Err(ParseError::RadiusNegative)
        } else if !(0 <= color.r && color.r <= COLOR_SCALE && 0 <= color.g && color.g
            <= COLOR_SCALE && 0 <= color.b && color.b <= COLOR_SCALE) {
            Err(ParseError::ColorOutOfRange)
        } else if !(-MAX_COORD <= velocity.x && velocity.x <= MAX_COORD && -MAX_COORD
            <= velocity.y && velocity.y <= MAX_COORD && -MAX_COORD <= velocity.z && velocity.z
            <= MAX_COORD) {
            Err(ParseError::VelocityOutOfRange)
        } else if !(-MAX_COORD <= location.x && location.x <= MAX_COORD && -MAX_COORD
            <= location.y && location.y <= MAX_COORD && -MAX_COORD <= location.z && location.z
            <= MAX_COORD) {
            Err(ParseError::LocationOutOfRange)
        } else {
            Ok(Planet { mass, radius, color, velocity, location })
        }
    }
}

/// The simulated body a definition instantiates: it starts at the
/// definition's location with its initial velocity and mass, and carries
/// both roles — it pulls and is pulled.
pub open spec fn body_of(p: Planet) -> Body {
    Body {
        position: p.location,
        velocity: p.velocity,
        mass: p.mass,
        gravity_source: true,
        massive: true,
    }
}

/// Instantiate a simulated body from a loaded definition.
pub fn instantiate(p: &Planet) -> (b: Body)
    ensures
        b == body_of(*p),
        planet_wf(*p) ==> body_wf(b@),
{
    Body {
        position: p.location,
        velocity: p.velocity,
        mass: p.mass,
        gravity_source: true,
        massive: true,
    }
}

/// The definition store: one slot per issued load request, filled in by
/// the loader when parsing completes.  Slot handles are indices.
pub struct DefinitionStore {
    pub defs: Vec<Option<Planet>>,
}

/// Every definition the store holds satisfies the schema.
pub open spec fn store_wf(s: Seq<Option<Planet>>) -> bool {
    forall|h: int| 0 <= h < s.len() ==> ((#[trigger] s[h]) is Some ==> planet_wf(s[h].unwrap()))
}

impl View for DefinitionStore {
    type V = Seq<Option<Planet>>;

    open spec fn view(&self) -> Seq<Option<Planet>> {
        self.defs@
    }
}

impl DefinitionStore {
    pub fn new() -> (s: DefinitionStore)
        ensures
            s@ =~= Seq::<Option<Planet>>::empty(),
    {
        DefinitionStore { defs: Vec::new() }
    }

    /// Issue a load request: allocate a pending slot and hand out its
    /// handle.
    pub fn register(&mut self) -> (h: usize)
        ensures
            final(self)@ == old(self)@.push(None::<Planet>),
            h as int == old(self)@.len(),
    {
        let h = self.defs.len();
        self.defs.push(None);
        h
    }

    /// Record a completed load: the slot now holds the definition.
    pub fn complete(&mut self, h: usize, def: Planet)
        requires
            (h as int) < old(self)@.len(),
        ensures
            final(self)@ == old(self)@.update(h as int, Some(def)),
    {
        self.defs.set(h, Some(def));
    }

    /// Poll a handle: the definition once parsing completed, nothing
    /// before.
    pub fn get(&self, h: usize) -> (r: Option<Planet>)
        ensures
            r == if (h as int) < self@.len() {
                self@[h as int]
            } else {
                None::<Planet>
            },
    {
        if h < self.defs.len() {
            self.defs[h]
        } else {
            None
        }
    }
}

/// One outstanding load: its store handle and whether it has resolved.
#[derive(Clone, Copy, PartialEq, Eq, Structural, Debug)]
pub struct LoadEntry {
    pub handle: usize,
    pub loaded: bool,
}

pub open spec fn all_loaded(entries: Seq<LoadEntry>) -> bool {
    forall|k: int| 0 <= k < entries.len() ==> (#[trigger] entries[k]).loaded
}

/// Every entry's handle points into the store.
pub open spec fn entries_wf(entries: Seq<LoadEntry>, store: Seq<Option<Planet>>) -> bool {
    forall|k: int| 0 <= k < entries.len() ==> (#[trigger] entries[k]).handle < store.len()
}

/// The load set after one poll: an entry is loaded once its definition is
/// available; handles never change.
pub open spec fn polled_entries(entries: Seq<LoadEntry>, store: Seq<Option<Planet>>) -> Seq<
    LoadEntry,
> {
    Seq::new(
        entries.len(),
        |k: int|
            LoadEntry {
                handle: entries[k].handle,
                loaded: entries[k].loaded || store[entries[k].handle as int] is Some,
            },
    )
}

/// The bodies one poll instantiates, in entry order: one per entry that
/// was pending and whose definition has now arrived.
pub open spec fn spawned(entries: Seq<LoadEntry>, store: Seq<Option<Planet>>, upto: int) -> Seq<
    Body,
>
    decreases upto,
{
    if upto <= 0 {
        Seq::empty()
    } else {
        let prev = spawned(entries, store, upto - 1);
        let e = entries[upto - 1];
        if !e.loaded && store[e.handle as int] is Some {
            prev.push(body_of(store[e.handle as int].unwrap()))
        } else {
            prev
        }
    }
}

/// A well-formed store spawns only well-formed bodies.
pub proof fn lemma_spawned_wf(entries: Seq<LoadEntry>, store: Seq<Option<Planet>>, upto: int)
    requires
        store_wf(store),
        entries_wf(entries, store),
        upto <= entries.len(),
    ensures
        forall|k: int|
            0 <= k < spawned(entries, store, upto).len() ==> body_wf(
                (#[trigger] spawned(entries, store, upto)[k])@,
            ),
    decreases upto,
{
    if upto > 0 {
        lemma_spawned_wf(entries, store, upto - 1);
        let e = entries[upto - 1];
        let prev = spawned(entries, store, upto - 1);
        let cur = spawned(entries, store, upto);
        assert forall|k: int| 0 <= k < cur.len() implies body_wf((#[trigger] cur[k])@) by {
            if !e.loaded && store[e.handle as int] is Some {
                let p = store[e.handle as int].unwrap();
                assert(planet_wf(p));
                if k < prev.len() {
                    assert(cur[k] == prev[k]);
                    assert(body_wf(prev[k]@));
                } else {
                    assert(cur[k] == body_of(p));
                    assert(body_wf(body_of(p)@));
                }
            } else {
                assert(cur[k] == prev[k]);
                assert(body_wf(prev[k]@));
            }
        }
    }
}

/// The handles still pending among the first `upto` entries, in order.
pub open spec fn pending_handles(entries: Seq<LoadEntry>, upto: int) -> Seq<usize>
    decreases upto,
{
    if upto <= 0 {
        Seq::empty()
    } else {
        let prev = pending_handles(entries, upto - 1);
        if !entries[upto - 1].loaded {
            prev.push(entries[upto - 1].handle)
        } else {
            prev
        }
    }
}

/// The bootstrap state machine: it owns the load set, instantiates bodies
/// as definitions resolve, and fires the `Loading -> InSim` transition
/// exactly once, when nothing is pending.
pub struct Bootstrap {
    pub state: AppState,
    pub entries: Vec<LoadEntry>,
}

impl Bootstrap {
    /// Enter `Loading` with one pending entry per enumerated source.
    pub fn new(handles: &Vec<usize>) -> (b: Bootstrap)
        ensures
            b.state == AppState::Loading,
            b.entries@.len() == handles@.len(),
            forall|k: int|
                0 <= k < handles@.len() ==> b.entries@[k] == (LoadEntry {
                    handle: handles@[k],
                    loaded: false,
                }),
    {
        let mut entries: Vec<LoadEntry> = Vec::new();
        let n = handles.len();
        let mut k: usize = 0;
        while k < n
            invariant
                k <= n,
                n == handles@.len(),
                entries@.len() == k as int,
                forall|a: int|
                    0 <= a < k as int ==> entries@[a] == (LoadEntry {
                        handle: handles@[a],
                        loaded: false,
                    }),
            decreases n - k,
        {
            entries.push(LoadEntry { handle: handles[k], loaded: false });
            k += 1;
        }
        Bootstrap { state: AppState::Loading, entries }
    }

    /// One poll while loading: mark every entry whose definition has
    /// arrived, instantiate a body for each of them, and transition to
    /// `InSim` exactly when no entry remains pending.  After the
    /// transition the machine never touches the load set or the world
    /// again.
    pub fn poll(&mut self, store: &DefinitionStore, bodies: &mut Vec<Body>) -> (transitioned:
        bool)
        requires
            entries_wf(old(self).entries@, store@),
        ensures
            old(self).state == AppState::InSim ==> *final(self) == *old(self) && final(bodies)@
                == old(bodies)@ && !transitioned,
            old(self).state == AppState::Loading ==> {
                &&& final(self).entries@ == polled_entries(old(self).entries@, store@)
                &&& final(bodies)@ == old(bodies)@ + spawned(
                    old(self).entries@,
                    store@,
                    old(self).entries@.len() as int,
                )
                &&& (final(self).state == AppState::InSim <==> all_loaded(final(self).entries@))
                &&& transitioned == (final(self).state == AppState::InSim)
            },
    {
        if self.state == AppState::InSim {
            return false;
        }
        let n = self.entries.len();
        let mut k: usize = 0;
        while k < n
            invariant
                k <= n,
                n == self.entries@.len(),
                self.entries@.len() == old(self).entries@.len(),
                self.state == old(self).state,
                entries_wf(old(self).entries@, store@),
                forall|a: int|
                    0 <= a < k as int ==> self.entries@[a] == polled_entries(
                        old(self).entries@,
                        store@,
                    )[a],
                forall|a: int|
                    k as int <= a < n as int ==> #[trigger] self.entries@[a] == old(
                        self,
                    ).entries@[a],
                bodies@ == old(bodies)@ + spawned(old(self).entries@, store@, k as int),
            decreases n - k,
        {
            let e = self.entries[k];
            if !e.loaded {
                match store.get(e.handle) {
                    Some(p) => {
                        self.entries.set(k, LoadEntry { handle: e.handle, loaded: true });
                        let b = instantiate(&p);
                        bodies.push(b);
                    },
                    None => {},
                }
            }
            k += 1;
        }
        proof {
            assert(self.entries@ =~= polled_entries(old(self).entries@, store@));
        }
        let mut all: bool = true;
        let mut k2: usize = 0;
        while k2 < n
            invariant
                k2 <= n,
                n == self.entries@.len(),
                all == (forall|a: int| 0 <= a < k2 as int ==> (#[trigger] self.entries@[a]).loaded),
            decreases n - k2,
        {
            if !self.entries[k2].loaded {
                all = false;
            }
            k2 += 1;
        }
        if all {
            self.state = AppState::InSim;
            true
        } else {
            false
        }
    }

    /// The handles still pending, in load-set order: the stall diagnostic
    /// an operator is shown when loading never completes.
    pub fn pending(&self) -> (v: Vec<usize>)
        ensures
            v@ == pending_handles(self.entries@, self.entries@.len() as int),
    {
        let mut v: Vec<usize> = Vec::new();
        let n = self.entries.len();
        let mut k: usize = 0;
        while k < n
            invariant
                k <= n,
                n == self.entries@.len(),
                v@ == pending_handles(self.entries@, k as int),
            decreases n - k,
        {
            let e = self.entries[k];
            if !e.loaded {
                v.push(e.handle);
            }
            k += 1;
        }
        v
    }
}

} // verus!
