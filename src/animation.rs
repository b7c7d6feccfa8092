use vstd::prelude::*;

verus! {

/// Identifier of an entity of the scene, as the engine hands it out.
#[derive(Clone, Copy, Debug, PartialEq, Eq, Structural)]
pub struct EntityId(pub u64);

/// Token of a loaded clip: an index into the engine's registry of clips,
/// which keeps the clip data itself. Copying the token shares the clip.
#[derive(Clone, Copy, Debug, PartialEq, Eq, Structural)]
pub struct ClipHandle(pub u64);

/// One `(collection, clip name) -> handle` entry of the library.
#[derive(Debug)]
struct ClipEntry {
    collection: String,
    animation_name: String,
    handle: ClipHandle,
}

/// Handle of the latest entry of `entries` under the key, if any.
spec fn latest_clip(entries: Seq<ClipEntry>, collection: Seq<char>, name: Seq<char>) -> Option<
    ClipHandle,
>
    decreases entries.len(),
{
    if entries.len() == 0 {
        None
    } else {
        let e = entries.last();
        if e.collection@ == collection && e.animation_name@ == name {
            Some(e.handle)
        } else {
            latest_clip(entries.drop_last(), collection, name)
        }
    }
}

/// The mapping `(collection, clip name) -> handle` that entries describe,
/// a later entry replacing an earlier one under the same key.
spec fn clip_map(entries: Seq<ClipEntry>) -> Map<(Seq<char>, Seq<char>), ClipHandle> {
    Map::new(
        |k: (Seq<char>, Seq<char>)| latest_clip(entries, k.0, k.1) is Some,
        |k: (Seq<char>, Seq<char>)| latest_clip(entries, k.0, k.1)->Some_0,
    )
}

/// The clips of every collection, by collection name and clip name.
#[derive(Debug)]
pub struct AnimationLibrary {
    entries: Vec<ClipEntry>,
}

impl View for AnimationLibrary {
    type V = Map<(Seq<char>, Seq<char>), ClipHandle>;

    closed spec fn view(&self) -> Self::V {
        clip_map(self.entries@)
    }
}

impl AnimationLibrary {
    pub fn new() -> (r: AnimationLibrary)
        ensures
            r@ == Map::<(Seq<char>, Seq<char>), ClipHandle>::empty(),
    {
        let r = AnimationLibrary { entries: Vec::new() };
        assert(r@ =~= Map::<(Seq<char>, Seq<char>), ClipHandle>::empty());
        r
    }

    /// Files `animation_clip` under `(collection_name, animation_name)`,
    /// replacing what was filed there before.
    pub fn insert(&mut self, collection_name: &str, animation_name: &str, animation_clip: ClipHandle)
        ensures
            final(self)@ == old(self)@.insert((collection_name@, animation_name@), animation_clip),
    {
        let e = ClipEntry {
            collection: collection_name.to_owned(),
            animation_name: animation_name.to_owned(),
            handle: animation_clip,
        };
        self.entries.push(e);
        assert(self.entries@.drop_last() =~= old(self).entries@);
        assert(self@ =~= old(self)@.insert((collection_name@, animation_name@), animation_clip));
    }

    /// The clip filed under `(collection_name, animation_name)`, if one was.
    pub fn get(&self, collection_name: &str, animation_name: &str) -> (r: Option<ClipHandle>)
        ensures
            r matches Some(h) ==> self@.contains_key((collection_name@, animation_name@))
                && self@[(collection_name@, animation_name@)] == h,
            r is None ==> !self@.contains_key((collection_name@, animation_name@)),
    {
        let collection = collection_name.to_owned();
        let name = animation_name.to_owned();
        let mut i: usize = self.entries.len();
        assert(self.entries@.take(i as int) =~= self.entries@);
        while i > 0
            invariant
                i <= self.entries@.len(),
                collection@ == collection_name@,
                name@ == animation_name@,
                latest_clip(self.entries@, collection@, name@) == latest_clip(
                    self.entries@.take(i as int),
                    collection@,
                    name@,
                ),
            decreases i,
        {
            let e = &self.entries[i - 1];
            assert(self.entries@.take(i as int).drop_last() =~= self.entries@.take(i - 1));
            if e.collection == collection && e.animation_name == name {
                assert(latest_clip(self.entries@, collection@, name@) == Some(e.handle));
            return Some(e.handle);
            }
            i = i - 1;
        }
        assert(self.entries@.take(0) =~= Seq::<ClipEntry>::empty());
        None
    }

    /// Whether a clip is filed under `(collection_name, animation_name)`.
    pub fn contains(&self, collection_name: &str, animation_name: &str) -> (r: bool)
        ensures
            r == self@.contains_key((collection_name@, animation_name@)),
    {
        self.get(collection_name, animation_name).is_some()
    }
}


/// Declares the animation collection of an owning entity and the clip it
/// starts with.
#[derive(Debug)]
pub struct AnimationMarker {
    pub collection: String,
    pub starting_clip: String,
}

impl AnimationMarker {
    pub fn new(collection: &str, starting_clip: &str) -> (r: AnimationMarker)
        ensures
            r.collection@ == collection@,
            r.starting_clip@ == starting_clip@,
    {
        AnimationMarker { collection: collection.to_owned(), starting_clip: starting_clip.to_owned() }
    }
}

/// A request that the owner `entity_id` play the clip `animation_name`.
#[derive(Debug)]
pub struct AnimationTransitionEvent {
    pub entity_id: EntityId,
    pub animation_name: String,
}

/// The clip state of one animation-playing entity: its owner, the owner's
/// collection and the clip last requested.
#[derive(Debug)]
pub struct AnimationController {
    pub parent_entity_id: EntityId,
    pub animation_collection_name: String,
    pub current_clip: String,
}

/// A controller attached to the animation-playing entity `player`; `changed`
/// tells that it was attached or its clip changed since the last playback.
#[derive(Debug)]
pub struct BoundController {
    pub player: EntityId,
    pub controller: AnimationController,
    pub changed: bool,
}

/// A command to play `clip` on `target`, looping.
#[derive(Clone, Copy, Debug, PartialEq, Eq, Structural)]
pub struct PlayCommand {
    pub target: EntityId,
    pub clip: ClipHandle,
}

/// A controller asks for a clip that the library never received: a setup
/// defect.
#[derive(Debug)]
pub enum AnimationError {
    ClipNotLoaded { collection: String, clip: String },
}

/// The clip recorded for an owner's controller after the events, in order:
/// each event for that owner replaces the clip.
pub open spec fn clip_after(owner: EntityId, clip: Seq<char>, events: Seq<AnimationTransitionEvent>) -> Seq<
    char,
>
    decreases events.len(),
{
    if events.len() == 0 {
        clip
    } else if events.last().entity_id == owner {
        events.last().animation_name@
    } else {
        clip_after(owner, clip, events.drop_last())
    }
}

/// Whether some event for the owner asked for a clip other than the one
/// recorded at the time.
pub open spec fn clip_changes(owner: EntityId, clip: Seq<char>, events: Seq<AnimationTransitionEvent>) -> bool
    decreases events.len(),
{
    if events.len() == 0 {
        false
    } else {
        clip_changes(owner, clip, events.drop_last()) || (events.last().entity_id == owner
            && events.last().animation_name@ != clip_after(owner, clip, events.drop_last()))
    }
}

/// `after` is `before` once the events were read.
pub open spec fn follows_events(
    before: BoundController,
    after: BoundController,
    events: Seq<AnimationTransitionEvent>,
) -> bool {
    let owner = before.controller.parent_entity_id;
    &&& after.player == before.player
    &&& after.controller.parent_entity_id == owner
    &&& after.controller.animation_collection_name == before.controller.animation_collection_name
    &&& after.controller.current_clip@ == clip_after(owner, before.controller.current_clip@, events)
    &&& after.changed == (before.changed || clip_changes(owner, before.controller.current_clip@, events))
}

/// Reads the transition events of this tick, in order: a controller whose
/// owner an event names takes the event's clip, and is marked changed only
/// when that clip differs from the one it had.
pub fn read_animation_events(
    events: &Vec<AnimationTransitionEvent>,
    controllers: &mut Vec<BoundController>,
)
    ensures
        final(controllers)@.len() == old(controllers)@.len(),
        forall|j: int|
            0 <= j < old(controllers)@.len() ==> follows_events(
                #[trigger] old(controllers)@[j],
                final(controllers)@[j],
                events@,
            ),
{
    let ghost start = controllers@;
    let mut i: usize = 0;
    while i < events.len()
        invariant
            i <= events@.len(),
            controllers@.len() == start.len(),
            forall|j: int|
                0 <= j < start.len() ==> follows_events(
                    #[trigger] start[j],
                    controllers@[j],
                    events@.take(i as int),
                ),
        decreases events@.len() - i,
    {
        let ev = &events[i];
        assert(events@.take(i + 1).drop_last() =~= events@.take(i as int));
        assert(events@.take(i + 1).last() == events@[i as int]);
        let mut k: usize = 0;
        while k < controllers.len()
            invariant
                i < events@.len(),
                *ev == events@[i as int],
                k <= controllers@.len(),
                controllers@.len() == start.len(),
                events@.take(i + 1).drop_last() == events@.take(i as int),
                events@.take(i + 1).last() == events@[i as int],
                forall|j: int|
                    k <= j < start.len() ==> follows_events(
                        #[trigger] start[j],
                        controllers@[j],
                        events@.take(i as int),
                    ),
                forall|j: int|
                    0 <= j < k ==> follows_events(
                        #[trigger] start[j],
                        controllers@[j],
                        events@.take(i + 1),
                    ),
            decreases controllers@.len() - k,
        {
            if controllers[k].controller.parent_entity_id == ev.entity_id {
                let same = controllers[k].controller.current_clip == ev.animation_name;
                if !same {
                    controllers[k].controller.current_clip = ev.animation_name.clone();
                    controllers[k].changed = true;
                }
            }
            k = k + 1;
        }
        i = i + 1;
    }
    assert(events@.take(events@.len() as int) =~= events@);
}


/// The library key that a controller's current clip is looked up under.
pub open spec fn controller_key(b: BoundController) -> (Seq<char>, Seq<char>) {
    (b.controller.animation_collection_name@, b.controller.current_clip@)
}

/// Every changed controller names a clip of the library.
pub open spec fn all_loaded(lib: Map<(Seq<char>, Seq<char>), ClipHandle>, s: Seq<BoundController>) -> bool {
    forall|i: int| 0 <= i < s.len() && (#[trigger] s[i]).changed ==> lib.contains_key(controller_key(s[i]))
}

/// The play commands for the changed controllers, in their order.
pub open spec fn play_commands(lib: Map<(Seq<char>, Seq<char>), ClipHandle>, s: Seq<BoundController>) -> Seq<
    PlayCommand,
>
    decreases s.len(),
{
    if s.len() == 0 {
        Seq::empty()
    } else {
        let rest = play_commands(lib, s.drop_last());
        let b = s.last();
        if b.changed {
            rest.push(PlayCommand { target: b.player, clip: lib[controller_key(b)] })
        } else {
            rest
        }
    }
}

/// Playback: every controller attached or changed since the last playback
/// gets one command to loop its clip, and its change mark is cleared.
///
/// A changed controller whose clip the library lacks is a setup defect: the
/// error names it and the controllers are left as they were.
pub fn transfer_animations(
    animation_library: &AnimationLibrary,
    controllers: &mut Vec<BoundController>,
) -> (r: Result<Vec<PlayCommand>, AnimationError>)
    ensures
        r is Ok <==> all_loaded(animation_library@, old(controllers)@),
        r matches Ok(cmds) ==> {
            &&& cmds@ == play_commands(animation_library@, old(controllers)@)
            &&& final(controllers)@.len() == old(controllers)@.len()
            &&& forall|j: int|
                0 <= j < old(controllers)@.len() ==> (#[trigger] final(controllers)@[j]).player
                    == old(controllers)@[j].player && final(controllers)@[j].controller == old(
                    controllers,
                )@[j].controller && !final(controllers)@[j].changed
        },
        r matches Err(AnimationError::ClipNotLoaded { collection, clip }) ==> {
            &&& final(controllers)@ == old(controllers)@
            &&& exists|i: int|
                0 <= i < old(controllers)@.len() && (#[trigger] old(controllers)@[i]).changed
                    && !animation_library@.contains_key(controller_key(old(controllers)@[i]))
                    && controller_key(old(controllers)@[i]) == (collection@, clip@)
        },
{
    let ghost start = controllers@;
    let ghost lib = animation_library@;
    let mut cmds: Vec<PlayCommand> = Vec::new();
    let mut k: usize = 0;
    while k < controllers.len()
        invariant
            k <= controllers@.len(),
            controllers@ == start,
            lib == animation_library@,
            cmds@ == play_commands(lib, start.take(k as int)),
            all_loaded(lib, start.take(k as int)),
        decreases controllers@.len() - k,
    {
        let b = &controllers[k];
        assert(start.take(k + 1).drop_last() =~= start.take(k as int));
        assert(start.take(k + 1).last() == start[k as int]);
        if b.changed {
            let collection = b.controller.animation_collection_name.as_str();
            let clip = b.controller.current_clip.as_str();
            assert(*b == start[k as int]);
            assert((collection@, clip@) == controller_key(start[k as int]));
            match animation_library.get(collection, clip) {
                Some(h) => {
                    cmds.push(PlayCommand { target: b.player, clip: h });
                },
                None => {
                    assert(start[k as int].changed && !lib.contains_key(
                        controller_key(start[k as int]),
                    ));
                    assert(!all_loaded(lib, start));
                    return Err(
                        AnimationError::ClipNotLoaded {
                            collection: b.controller.animation_collection_name.clone(),
                            clip: b.controller.current_clip.clone(),
                        },
                    );
                },
            }
        }
        assert forall|i: int|
            0 <= i < start.take(k + 1).len() && (#[trigger] start.take(k + 1)[i]).changed implies lib.contains_key(
            controller_key(start.take(k + 1)[i]),
        ) by {
            if i < k {
                assert(start.take(k + 1)[i] == start.take(k as int)[i]);
            }
        }
        k = k + 1;
    }
    assert(start.take(start.len() as int) =~= start);
    let mut j: usize = 0;
    while j < controllers.len()
        invariant
            j <= controllers@.len(),
            controllers@.len() == start.len(),
            forall|i: int|
                0 <= i < start.len() ==> (#[trigger] controllers@[i]).player == start[i].player
                    && controllers@[i].controller == start[i].controller,
            forall|i: int| 0 <= i < j ==> !(#[trigger] controllers@[i]).changed,
        decreases controllers@.len() - j,
    {
        controllers[j].changed = false;
        j = j + 1;
    }
    Ok(cmds)
}


/// An entity carrying an animation marker, with its scene-graph descendants.
#[derive(Debug)]
pub struct MarkedOwner {
    pub entity: EntityId,
    pub marker: AnimationMarker,
    pub descendants: Vec<EntityId>,
}

/// Some controller is attached to `p`.
pub open spec fn is_bound(s: Seq<BoundController>, p: EntityId) -> bool {
    exists|j: int| 0 <= j < s.len() && (#[trigger] s[j]).player == p
}

/// `o` is the first owner among whose descendants `p` is.
pub open spec fn first_owner(owners: Seq<MarkedOwner>, p: EntityId, o: int) -> bool {
    &&& 0 <= o < owners.len()
    &&& owners[o].descendants@.contains(p)
    &&& forall|q: int| 0 <= q < o ==> !(#[trigger] owners[q]).descendants@.contains(p)
}

pub open spec fn has_owner(owners: Seq<MarkedOwner>, p: EntityId) -> bool {
    exists|o: int| first_owner(owners, p, o)
}

/// The controller that binding attaches to `p` under `owner`: it starts on
/// the marker's starting clip and counts as changed.
pub open spec fn bound_to(owner: MarkedOwner, p: EntityId) -> BoundController {
    BoundController {
        player: p,
        controller: AnimationController {
            parent_entity_id: owner.entity,
            animation_collection_name: owner.marker.collection,
            current_clip: owner.marker.starting_clip,
        },
        changed: true,
    }
}

/// The controllers after binding the players, in order: a player that has no
/// controller yet and lies under a marked owner gets one from the first such
/// owner.
pub open spec fn bind_players(
    owners: Seq<MarkedOwner>,
    s: Seq<BoundController>,
    players: Seq<EntityId>,
) -> Seq<BoundController>
    decreases players.len(),
{
    if players.len() == 0 {
        s
    } else {
        let before = bind_players(owners, s, players.drop_last());
        let p = players.last();
        if is_bound(before, p) || !has_owner(owners, p) {
            before
        } else {
            before.push(bound_to(owners[choose|o: int| first_owner(owners, p, o)], p))
        }
    }
}

proof fn lemma_first_owner_unique(owners: Seq<MarkedOwner>, p: EntityId, a: int, b: int)
    requires
        first_owner(owners, p, a),
        first_owner(owners, p, b),
    ensures
        a == b,
{
    if a < b {
        assert(!owners[a].descendants@.contains(p));
    } else if b < a {
        assert(!owners[b].descendants@.contains(p));
    }
}

fn contains_entity(v: &Vec<EntityId>, p: EntityId) -> (r: bool)
    ensures
        r == v@.contains(p),
{
    let mut i: usize = 0;
    while i < v.len()
        invariant
            i <= v@.len(),
            forall|j: int| 0 <= j < i ==> v@[j] != p,
        decreases v@.len() - i,
    {
        if v[i] == p {
            assert(v@[i as int] == p);
            return true;
        }
        i = i + 1;
    }
    false
}

fn find_bound(s: &Vec<BoundController>, p: EntityId) -> (r: bool)
    ensures
        r == is_bound(s@, p),
{
    let mut i: usize = 0;
    while i < s.len()
        invariant
            i <= s@.len(),
            forall|j: int| 0 <= j < i ==> (#[trigger] s@[j]).player != p,
        decreases s@.len() - i,
    {
        if s[i].player == p {
            return true;
        }
        i = i + 1;
    }
    false
}

fn find_owner(owners: &Vec<MarkedOwner>, p: EntityId) -> (r: Option<usize>)
    ensures
        r matches Some(o) ==> first_owner(owners@, p, o as int),
        r is None ==> !has_owner(owners@, p),
{
    let mut o: usize = 0;
    while o < owners.len()
        invariant
            o <= owners@.len(),
            forall|q: int| 0 <= q < o ==> !(#[trigger] owners@[q]).descendants@.contains(p),
        decreases owners@.len() - o,
    {
        if contains_entity(&owners[o].descendants, p) {
            return Some(o);
        }
        o = o + 1;
    }
    proof {
        if has_owner(owners@, p) {
            let w = choose|w: int| first_owner(owners@, p, w);
            assert(!owners@[w].descendants@.contains(p));
        }
    }
    None
}

/// Binding: each animation-playing entity of `players` that has no controller
/// yet and lies under a marked owner gets a controller from the first such
/// owner, on the owner's starting clip. Controllers already there are kept,
/// so no entity is bound twice.
pub fn assign_animation_controllers(
    owners: &Vec<MarkedOwner>,
    players: &Vec<EntityId>,
    controllers: &mut Vec<BoundController>,
)
    ensures
        final(controllers)@ == bind_players(owners@, old(controllers)@, players@),
{
    let ghost start = controllers@;
    let mut i: usize = 0;
    while i < players.len()
        invariant
            i <= players@.len(),
            controllers@ == bind_players(owners@, start, players@.take(i as int)),
        decreases players@.len() - i,
    {
        let p = players[i];
        assert(players@.take(i + 1).drop_last() =~= players@.take(i as int));
        assert(players@.take(i + 1).last() == p);
        if !find_bound(controllers, p) {
            match find_owner(owners, p) {
                Some(o) => {
                    let owner = &owners[o];
                    proof {
                        let c = choose|c: int| first_owner(owners@, p, c);
                        lemma_first_owner_unique(owners@, p, c, o as int);
                    }
                    let b = BoundController {
                        player: p,
                        controller: AnimationController {
                            parent_entity_id: owner.entity,
                            animation_collection_name: owner.marker.collection.clone(),
                            current_clip: owner.marker.starting_clip.clone(),
                        },
                        changed: true,
                    };
                    controllers.push(b);
                },
                None => {},
            }
        }
        i = i + 1;
    }
    assert(players@.take(players@.len() as int) =~= players@);
}


proof fn lemma_play_commands_single(lib: Map<(Seq<char>, Seq<char>), ClipHandle>, b: BoundController)
    ensures
        play_commands(lib, seq![b]).len() == if b.changed {
            1int
        } else {
            0int
        },
{
    assert(seq![b].drop_last() =~= Seq::<BoundController>::empty());
    assert(play_commands(lib, Seq::<BoundController>::empty()).len() == 0);
}

/// Requesting the same clip twice in a row yields exactly one playback
/// command for a controller on another clip, and none for one already on it:
/// whether both requests come in one tick or in two ticks with a playback in
/// between.
pub proof fn lemma_repeated_transition_plays_once(
    lib: Map<(Seq<char>, Seq<char>), ClipHandle>,
    b0: BoundController,
    e: AnimationTransitionEvent,
    b1: BoundController,
    b2: BoundController,
    b3: BoundController,
)
    requires
        !b0.changed,
        e.entity_id == b0.controller.parent_entity_id,
        follows_events(b0, b1, seq![e, e]),
        b2.player == b1.player && b2.controller == b1.controller && !b2.changed,
        follows_events(b2, b3, seq![e]),
    ensures
        play_commands(lib, seq![b1]).len() + play_commands(lib, seq![b3]).len() == if e.animation_name@
            == b0.controller.current_clip@ {
            0int
        } else {
            1int
        },
        b3.controller.current_clip@ == e.animation_name@,
{
    let owner = b0.controller.parent_entity_id;
    let clip = b0.controller.current_clip@;
    assert(seq![e, e].drop_last() =~= seq![e]);
    assert(seq![e].drop_last() =~= Seq::<AnimationTransitionEvent>::empty());
    let none = Seq::<AnimationTransitionEvent>::empty();
    assert(clip_after(owner, clip, none) == clip);
    assert(!clip_changes(owner, clip, none));
    assert(!clip_changes(owner, b2.controller.current_clip@, none));
    assert(clip_after(owner, b2.controller.current_clip@, none) == b2.controller.current_clip@);
    assert(clip_after(owner, clip, seq![e]) == e.animation_name@);
    assert(clip_after(owner, clip, seq![e, e]) == e.animation_name@);
    assert(clip_changes(owner, clip, seq![e]) == (e.animation_name@ != clip));
    assert(clip_changes(owner, clip, seq![e, e]) == (e.animation_name@ != clip));
    assert(clip_changes(owner, b2.controller.current_clip@, seq![e]) == false);
    lemma_play_commands_single(lib, b1);
    lemma_play_commands_single(lib, b3);
}


proof fn lemma_bound_stays_bound(s: Seq<BoundController>, b: BoundController, p: EntityId)
    requires
        is_bound(s, p),
    ensures
        is_bound(s.push(b), p),
{
    let j = choose|j: int| 0 <= j < s.len() && (#[trigger] s[j]).player == p;
    assert(s.push(b)[j] == s[j]);
}

proof fn lemma_binding_covers_players(owners: Seq<MarkedOwner>, s: Seq<BoundController>, players: Seq<EntityId>)
    ensures
        forall|i: int|
            0 <= i < players.len() && has_owner(owners, #[trigger] players[i]) ==> is_bound(
                bind_players(owners, s, players),
                players[i],
            ),
    decreases players.len(),
{
    if players.len() > 0 {
        let rest = players.drop_last();
        let before = bind_players(owners, s, rest);
        let p = players.last();
        lemma_binding_covers_players(owners, s, rest);
        assert forall|i: int|
            0 <= i < players.len() && has_owner(owners, #[trigger] players[i]) implies is_bound(
            bind_players(owners, s, players),
            players[i],
        ) by {
            if !(is_bound(before, p) || !has_owner(owners, p)) {
                let b = bound_to(owners[choose|o: int| first_owner(owners, p, o)], p);
                assert(before.push(b)[before.len() as int].player == p);
                if i < players.len() - 1 {
                    assert(rest[i] == players[i]);
                    lemma_bound_stays_bound(before, b, players[i]);
                }
            } else if i < players.len() - 1 {
                assert(rest[i] == players[i]);
            }
        }
    }
}

proof fn lemma_binding_settled(owners: Seq<MarkedOwner>, t: Seq<BoundController>, players: Seq<EntityId>)
    requires
        forall|i: int|
            0 <= i < players.len() ==> is_bound(t, #[trigger] players[i]) || !has_owner(
                owners,
                players[i],
            ),
    ensures
        bind_players(owners, t, players) == t,
    decreases players.len(),
{
    if players.len() > 0 {
        let rest = players.drop_last();
        assert forall|i: int| 0 <= i < rest.len() implies is_bound(t, #[trigger] rest[i]) || !has_owner(
            owners,
            rest[i],
        ) by {
            assert(rest[i] == players[i]);
        }
        lemma_binding_settled(owners, t, rest);
        assert(players.last() == players[players.len() - 1]);
    }
}

/// Binding is idempotent: binding the same players again under the same
/// owners attaches nothing more.
pub proof fn lemma_binding_idempotent(
    owners: Seq<MarkedOwner>,
    controllers: Seq<BoundController>,
    players: Seq<EntityId>,
)
    ensures
        bind_players(owners, bind_players(owners, controllers, players), players) == bind_players(
            owners,
            controllers,
            players,
        ),
{
    let t = bind_players(owners, controllers, players);
    lemma_binding_covers_players(owners, controllers, players);
    lemma_binding_settled(owners, t, players);
}

} // verus!
