//! Stepped keyframe sampling of model animations, and the per-frame map that
//! samples each model at most once.
//!
//! Times are integer ticks (milliseconds since the start of the game). Keyframe
//! values (the transforms) stay with the caller: sampling picks, for each track,
//! the index of the keyframe to use, and for each animated part the tracks to
//! compose, in track order.
use vstd::prelude::*;

verus! {

/// One animation track: the part it moves and its ascending keyframe times. The
/// last keyframe time is the track's duration.
pub struct AnimationTrack {
    pub target: u64,
    pub times: Vec<u64>,
}

/// A keyframe chosen for a track.
#[derive(Clone, Copy, Debug, PartialEq, Eq, Structural)]
pub struct KeyRef {
    pub track: usize,
    pub keyframe: usize,
}

/// What a part looks like at one instant: its transform is the product, in
/// order, of the chosen keyframes of the tracks that move it.
pub struct PartSample {
    pub target: u64,
    pub keys: Vec<KeyRef>,
}

pub open spec fn track_wf(t: AnimationTrack) -> bool {
    t.times@.len() > 0 && t.times@.last() > 0
}

pub open spec fn tracks_wf(tracks: Seq<AnimationTrack>) -> bool {
    forall|i: int| 0 <= i < tracks.len() ==> #[trigger] track_wf(tracks[i])
}

/// Index of the first time that is not below `w`, or the length if none is.
pub open spec fn partition_point(times: Seq<u64>, w: int) -> nat
    decreases times.len(),
{
    if times.len() == 0 {
        0
    } else if times[0] >= w {
        0
    } else {
        1 + partition_point(times.drop_first(), w)
    }
}

/// The keyframe of a track at `elapsed`: time wraps modulo the duration and the
/// first keyframe at or after the wrapped time is taken, with no interpolation.
pub open spec fn keyframe_at(times: Seq<u64>, elapsed: int) -> nat {
    partition_point(times, elapsed % (times.last() as int))
}

/// The distinct targets of the first `n` tracks, in order of first appearance.
pub open spec fn targets_of(tracks: Seq<AnimationTrack>, n: nat) -> Seq<u64>
    decreases n,
{
    if n == 0 {
        Seq::empty()
    } else {
        let prev = targets_of(tracks, (n - 1) as nat);
        if prev.contains(tracks[n - 1].target) {
            prev
        } else {
            prev.push(tracks[n - 1].target)
        }
    }
}

/// The keyframes, at `elapsed`, of those of the first `n` tracks that move
/// `target`, in track order.
pub open spec fn keys_of(tracks: Seq<AnimationTrack>, target: u64, n: nat, elapsed: int) -> Seq<KeyRef>
    decreases n,
{
    if n == 0 {
        Seq::empty()
    } else {
        let prev = keys_of(tracks, target, (n - 1) as nat, elapsed);
        if tracks[n - 1].target == target {
            prev.push(
                KeyRef {
                    track: (n - 1) as usize,
                    keyframe: keyframe_at(tracks[n - 1].times@, elapsed) as usize,
                },
            )
        } else {
            prev
        }
    }
}

/// `parts` is the sample at `elapsed` of the animation made of `tracks`.
pub open spec fn is_sample_of(tracks: Seq<AnimationTrack>, elapsed: int, parts: Seq<PartSample>) -> bool {
    let targets = targets_of(tracks, tracks.len());
    &&& parts.len() == targets.len()
    &&& forall|k: int|
        0 <= k < parts.len() ==> (#[trigger] parts[k]).target == targets[k] && parts[k].keys@
            == keys_of(tracks, targets[k], tracks.len(), elapsed)
}

proof fn lemma_partition_point_bound(times: Seq<u64>, w: int, k: int)
    requires
        0 <= k < times.len(),
        times[k] >= w,
    ensures
        partition_point(times, w) <= k,
    decreases k,
{
    if k > 0 && times[0] < w {
        lemma_partition_point_bound(times.drop_first(), w, k - 1);
    }
}

/// The keyframe chosen at any instant is a keyframe of the track.
pub proof fn lemma_keyframe_in_range(times: Seq<u64>, elapsed: int)
    requires
        times.len() > 0,
        times.last() > 0,
    ensures
        keyframe_at(times, elapsed) < times.len(),
{
    let d = times.last() as int;
    vstd::arithmetic::div_mod::lemma_mod_bound(elapsed, d);
    lemma_partition_point_bound(times, elapsed % d, times.len() - 1);
}

/// The keyframe index of one track at `elapsed`.
pub fn sample_track(track: &AnimationTrack, elapsed: u64) -> (r: usize)
    requires
        track_wf(*track),
    ensures
        r == keyframe_at(track.times@, elapsed as int),
        r < track.times.len(),
{
    let times = &track.times;
    let duration = times[times.len() - 1];
    let wrapped = elapsed % duration;
    assert(times@.last() == duration);
    let mut i: usize = 0;
    assert(times@.skip(0) =~= times@);
    proof {
        lemma_keyframe_in_range(times@, elapsed as int);
    }
    while i < times.len()
        invariant
            i <= times.len(),
            times@ == track.times@,
            keyframe_at(times@, elapsed as int) == partition_point(times@, wrapped as int),
            keyframe_at(times@, elapsed as int) < times.len(),
            partition_point(times@, wrapped as int) == i + partition_point(
                times@.skip(i as int),
                wrapped as int,
            ),
        decreases times.len() - i,
    {
        assert(times@.skip(i as int).drop_first() =~= times@.skip(i + 1));
        if times[i] >= wrapped {
            return i;
        }
        i = i + 1;
    }
    i
}

/// Position of `target` in `parts`, if it is there.
fn find_target(targets: &Vec<u64>, target: u64) -> (r: Option<usize>)
    ensures
        r is None ==> !targets@.contains(target),
        r matches Some(k) ==> k < targets.len() && targets@[k as int] == target,
{
    let mut k: usize = 0;
    while k < targets.len()
        invariant
            k <= targets.len(),
            forall|j: int| 0 <= j < k ==> targets@[j] != target,
        decreases targets.len() - k,
    {
        if targets[k] == target {
            return Some(k);
        }
        k = k + 1;
    }
    None
}

/// Samples an animation at `elapsed`: for each animated part, in order of first
/// appearance, the keyframes of the tracks that move it, in track order.
pub fn sample(tracks: &Vec<AnimationTrack>, elapsed: u64) -> (r: Vec<PartSample>)
    requires
        tracks_wf(tracks@),
    ensures
        is_sample_of(tracks@, elapsed as int, r@),
{
    let n = tracks.len();
    let mut targets: Vec<u64> = Vec::new();
    let mut i: usize = 0;
    while i < n
        invariant
            n == tracks.len(),
            i <= n,
            targets@ == targets_of(tracks@, i as nat),
        decreases n - i,
    {
        let t = tracks[i].target;
        if find_target(&targets, t).is_none() {
            targets.push(t);
        }
        i = i + 1;
    }
    let mut parts: Vec<PartSample> = Vec::new();
    let mut k: usize = 0;
    while k < targets.len()
        invariant
            n == tracks.len(),
            tracks_wf(tracks@),
            targets@ == targets_of(tracks@, n as nat),
            k <= targets.len(),
            parts.len() == k,
            forall|p: int|
                0 <= p < k ==> (#[trigger] parts@[p]).target == targets@[p] && parts@[p].keys@
                    == keys_of(tracks@, targets@[p], n as nat, elapsed as int),
        decreases targets.len() - k,
    {
        let target = targets[k];
        let mut keys: Vec<KeyRef> = Vec::new();
        let mut j: usize = 0;
        while j < n
            invariant
                n == tracks.len(),
                tracks_wf(tracks@),
                j <= n,
                keys@ == keys_of(tracks@, target, j as nat, elapsed as int),
            decreases n - j,
        {
            if tracks[j].target == target {
                assert(track_wf(tracks@[j as int]));
                let keyframe = sample_track(&tracks[j], elapsed);
                keys.push(KeyRef { track: j, keyframe });
            }
            j = j + 1;
        }
        parts.push(PartSample { target, keys });
        k = k + 1;
    }
    parts
}

/// Animation tracks by model, as loaded with the resources: at most one entry
/// per model.
pub struct AnimationLibrary {
    pub models: Vec<(u64, Vec<AnimationTrack>)>,
}

/// The animations sampled during one frame, kept in a hashbrown map: for each
/// model seen, its sample, or `None` for a model with no registered animation.
#[verifier::external_body]
pub struct AnimationMap {
    inner: hashbrown::HashMap<u64, Option<Vec<PartSample>>>,
}

/// What an animation map holds: the entry of each model in it.
pub uninterp spec fn samples_of(m: AnimationMap) -> Map<u64, Option<Vec<PartSample>>>;

pub open spec fn keys_unique<V>(entries: Seq<(u64, V)>) -> bool {
    forall|i: int, j: int|
        0 <= i < entries.len() && 0 <= j < entries.len() && entries[i].0 == entries[j].0 ==> i == j
}

pub open spec fn has_key<V>(entries: Seq<(u64, V)>, key: u64) -> bool {
    exists|i: int| 0 <= i < entries.len() && entries[i].0 == key
}

/// Index of the entry for `key`.
fn position<V>(entries: &Vec<(u64, V)>, key: u64) -> (r: Option<usize>)
    ensures
        r is None <==> !has_key(entries@, key),
        r matches Some(i) ==> i < entries.len() && entries@[i as int].0 == key,
{
    let mut i: usize = 0;
    while i < entries.len()
        invariant
            i <= entries.len(),
            forall|j: int| 0 <= j < i ==> entries@[j].0 != key,
        decreases entries.len() - i,
    {
        if entries[i].0 == key {
            return Some(i);
        }
        i = i + 1;
    }
    None
}

impl AnimationLibrary {
    pub open spec fn wf(&self) -> bool {
        &&& keys_unique(self.models@)
        &&& forall|i: int| 0 <= i < self.models.len() ==> tracks_wf(#[trigger] self.models@[i].1@)
    }

    pub fn new() -> (r: AnimationLibrary)
        ensures
            r.wf(),
            r.models.len() == 0,
    {
        AnimationLibrary { models: Vec::new() }
    }

    /// Registers the tracks of `model`. Refused (and nothing changes) when the
    /// model is already registered or a track has no keyframe or a zero duration.
    pub fn add_model(&mut self, model: u64, tracks: Vec<AnimationTrack>) -> (r: bool)
        requires
            old(self).wf(),
        ensures
            final(self).wf(),
            r == (!has_key(old(self).models@, model) && tracks_wf(tracks@)),
            r ==> final(self).models@ == old(self).models@.push((model, tracks)),
            !r ==> final(self).models@ == old(self).models@,
    {
        if position(&self.models, model).is_some() {
            return false;
        }
        let mut i: usize = 0;
        while i < tracks.len()
            invariant
                i <= tracks.len(),
                self.wf(),
                self.models@ == old(self).models@,
                !has_key(self.models@, model),
                forall|j: int| 0 <= j < i ==> #[trigger] track_wf(tracks@[j]),
            decreases tracks.len() - i,
        {
            let times = &tracks[i].times;
            if times.len() == 0 || times[times.len() - 1] == 0 {
                assert(!track_wf(tracks@[i as int]));
                return false;
            }
            i = i + 1;
        }
        let ghost old_models = self.models@;
        self.models.push((model, tracks));
        proof {
            assert forall|a: int, b: int|
                0 <= a < self.models.len() && 0 <= b < self.models.len() && self.models@[a].0
                    == self.models@[b].0 implies a == b by {
                if a < old_models.len() && b == old_models.len() {
                    assert(has_key(old_models, model));
                }
                if b < old_models.len() && a == old_models.len() {
                    assert(has_key(old_models, model));
                }
            }
            assert forall|a: int| 0 <= a < self.models.len() implies tracks_wf(
                #[trigger] self.models@[a].1@,
            ) by {
                if a < old_models.len() {
                    assert(self.models@[a] == old_models[a]);
                }
            }
        }
        true
    }
}

impl AnimationMap {
    /// Relies on hashbrown's `HashMap::new`: a map with no entry.
    #[verifier::external_body]
    fn empty() -> (r: AnimationMap)
        ensures
            forall|k: u64| !samples_of(r).contains_key(k),
    {
        AnimationMap { inner: hashbrown::HashMap::new() }
    }

    /// Relies on hashbrown's `HashMap::insert`: afterwards `model` maps to
    /// `entry`, and every other entry stays.
    #[verifier::external_body]
    fn put(&mut self, model: u64, entry: Option<Vec<PartSample>>)
        ensures
            samples_of(*final(self)) == samples_of(*old(self)).insert(model, entry),
    {
        self.inner.insert(model, entry);
    }

    /// Relies on hashbrown's `HashMap::get`: the entry of a present key, `None`
    /// for an absent one.
    #[verifier::external_body]
    fn find(&self, model: u64) -> (r: Option<&Option<Vec<PartSample>>>)
        ensures
            match r {
                Some(e) => samples_of(*self).contains_key(model) && samples_of(*self)[model] == *e,
                None => !samples_of(*self).contains_key(model),
            },
    {
        self.inner.get(&model)
    }

    /// Whether `model` was sampled this frame.
    pub open spec fn has(&self, model: u64) -> bool {
        samples_of(*self).contains_key(model)
    }

    /// Every entry agrees with the library at `elapsed`: a model the library
    /// has holds its sample, any other model holds `None`.
    pub open spec fn consistent_with(&self, library: &AnimationLibrary, elapsed: int) -> bool {
        forall|m: u64|
            #[trigger] samples_of(*self).contains_key(m) ==> {
                &&& (samples_of(*self)[m] is Some <==> has_key(library.models@, m))
                &&& (samples_of(*self)[m] is Some ==> exists|j: int|
                    0 <= j < library.models.len() && library.models@[j].0 == m && is_sample_of(
                        library.models@[j].1@,
                        elapsed,
                        samples_of(*self)[m]->Some_0@,
                    ))
            }
    }

    pub fn new() -> (r: AnimationMap)
        ensures
            forall|m: u64| !samples_of(r).contains_key(m),
    {
        AnimationMap::empty()
    }

    /// The entry of `model`, if it was sampled this frame.
    pub fn get(&self, model: u64) -> (r: Option<&Option<Vec<PartSample>>>)
        ensures
            match r {
                Some(e) => self.has(model) && samples_of(*self)[model] == *e,
                None => !self.has(model),
            },
    {
        self.find(model)
    }

    /// Forgets every sample, at the end of a frame.
    pub fn reset(&mut self)
        ensures
            forall|m: u64| !samples_of(*final(self)).contains_key(m),
    {
        *self = AnimationMap::empty();
    }
}

/// Makes sure `map` holds `model`, sampling its animation at `elapsed` the first
/// time the model is seen this frame; a model already in the map is not sampled
/// again. A model with no registered animation is recorded as such. Returns
/// whether the model's entry holds a sample.
pub fn try_add_animation(library: &AnimationLibrary, elapsed: u64, model: u64, map: &mut AnimationMap) -> (r: bool)
    requires
        library.wf(),
    ensures
        old(map).has(model) ==> samples_of(*final(map)) == samples_of(*old(map)) && r
            == samples_of(*old(map))[model] is Some,
        !old(map).has(model) ==> {
            let e = samples_of(*final(map))[model];
            &&& samples_of(*final(map)) == samples_of(*old(map)).insert(model, e)
            &&& r == has_key(library.models@, model)
            &&& (r <==> e is Some)
            &&& (r ==> exists|i: int|
                0 <= i < library.models.len() && library.models@[i].0 == model && is_sample_of(
                    library.models@[i].1@,
                    elapsed as int,
                    e->Some_0@,
                ))
        },
{
    match map.find(model) {
        Some(e) => e.is_some(),
        None => {
            let entry = match position(&library.models, model) {
                Some(k) => {
                    assert(tracks_wf(library.models@[k as int].1@));
                    Some(sample(&library.models[k].1, elapsed))
                },
                None => None,
            };
            let found = entry.is_some();
            map.put(model, entry);
            found
        },
    }
}

/// Samples each of `models` into the frame's map, once per model.
pub fn add_animations(library: &AnimationLibrary, elapsed: u64, models: &Vec<u64>, map: &mut AnimationMap)
    requires
        library.wf(),
        old(map).consistent_with(library, elapsed as int),
    ensures
        final(map).consistent_with(library, elapsed as int),
        forall|k: int| 0 <= k < models.len() ==> final(map).has(#[trigger] models@[k]),
        forall|m: u64| old(map).has(m) ==> final(map).has(m),
{
    let mut k: usize = 0;
    while k < models.len()
        invariant
            k <= models.len(),
            library.wf(),
            map.consistent_with(library, elapsed as int),
            forall|j: int| 0 <= j < k ==> map.has(#[trigger] models@[j]),
            forall|m: u64| old(map).has(m) ==> map.has(m),
        decreases models.len() - k,
    {
        let ghost before = samples_of(*map);
        let m = models[k];
        try_add_animation(library, elapsed, m, map);
        proof {
            let after = samples_of(*map);
            assert forall|x: u64| #[trigger] after.contains_key(x) implies {
                &&& (after[x] is Some <==> has_key(library.models@, x))
                &&& (after[x] is Some ==> exists|j: int|
                    0 <= j < library.models.len() && library.models@[j].0 == x && is_sample_of(
                        library.models@[j].1@,
                        elapsed as int,
                        after[x]->Some_0@,
                    ))
            } by {
                if x != m {
                    assert(before.contains_key(x));
                }
            }
        }
        k = k + 1;
    }
}

/// Sampling is periodic: shifting the instant by any common multiple of the
/// tracks' durations (for one shared duration, by that duration) gives the
/// same sample.
pub proof fn lemma_sample_periodic(tracks: Seq<AnimationTrack>, elapsed: int, period: int)
    requires
        elapsed >= 0,
        period >= 0,
        tracks_wf(tracks),
        forall|i: int|
            0 <= i < tracks.len() ==> period % (#[trigger] tracks[i].times@.last() as int) == 0,
    ensures
        forall|parts: Seq<PartSample>|
            is_sample_of(tracks, elapsed, parts) <==> is_sample_of(
                tracks,
                elapsed + period,
                parts,
            ),
{
    assert forall|target: u64, n: nat| n <= tracks.len() implies #[trigger] keys_of(
        tracks,
        target,
        n,
        elapsed,
    ) == keys_of(tracks, target, n, elapsed + period) by {
        lemma_keys_periodic(tracks, target, n, elapsed, period);
    }
}

proof fn lemma_keys_periodic(tracks: Seq<AnimationTrack>, target: u64, n: nat, elapsed: int, period: int)
    requires
        elapsed >= 0,
        period >= 0,
        tracks_wf(tracks),
        n <= tracks.len(),
        forall|i: int|
            0 <= i < tracks.len() ==> period % (#[trigger] tracks[i].times@.last() as int) == 0,
    ensures
        keys_of(tracks, target, n, elapsed) == keys_of(tracks, target, n, elapsed + period),
    decreases n,
{
    if n > 0 {
        lemma_keys_periodic(tracks, target, (n - 1) as nat, elapsed, period);
        let times = tracks[n - 1].times@;
        let d = times.last() as int;
        assert(track_wf(tracks[n - 1]));
        assert(period % d == 0);
        vstd::arithmetic::div_mod::lemma_fundamental_div_mod(period, d);
        let q = period / d;
        assert(period == d * q);
        vstd::arithmetic::div_mod::lemma_mod_multiples_vanish(q, elapsed, d);
        assert((elapsed + period) % d == elapsed % d);
    }
}

} // verus!
