use automancy::animation::{
    sample, sample_track, try_add_animation, AnimationLibrary, AnimationMap, AnimationTrack, KeyRef,
};

fn track(target: u64, times: Vec<u64>) -> AnimationTrack {
    AnimationTrack { target, times }
}

#[test]
fn stepped_sampling_takes_first_keyframe_at_or_after() {
    let t = track(0, vec![0, 100, 200, 400]);
    assert_eq!(sample_track(&t, 0), 0);
    assert_eq!(sample_track(&t, 50), 1);
    assert_eq!(sample_track(&t, 100), 1);
    assert_eq!(sample_track(&t, 101), 2);
    assert_eq!(sample_track(&t, 399), 3);
    // wraps modulo the duration (400)
    assert_eq!(sample_track(&t, 450), 1);
    assert_eq!(sample_track(&t, 400), 0);
}

#[test]
fn sample_is_periodic_in_duration() {
    let tracks = vec![track(3, vec![10, 60, 120]), track(5, vec![40, 120]), track(3, vec![0, 30, 120])];
    for t in [0u64, 7, 59, 61, 119, 333] {
        let a = sample(&tracks, t);
        let b = sample(&tracks, t + 120);
        assert_eq!(a.len(), b.len());
        for (x, y) in a.iter().zip(b.iter()) {
            assert_eq!(x.target, y.target);
            assert_eq!(x.keys, y.keys);
        }
    }
}

#[test]
fn tracks_of_one_part_are_grouped_in_track_order() {
    let tracks = vec![track(3, vec![10, 60, 120]), track(5, vec![40, 120]), track(3, vec![0, 30, 120])];
    let parts = sample(&tracks, 35);
    assert_eq!(parts.len(), 2);
    assert_eq!(parts[0].target, 3);
    assert_eq!(
        parts[0].keys,
        vec![KeyRef { track: 0, keyframe: 1 }, KeyRef { track: 2, keyframe: 2 }]
    );
    assert_eq!(parts[1].target, 5);
    assert_eq!(parts[1].keys, vec![KeyRef { track: 1, keyframe: 0 }]);
}

#[test]
fn animation_map_samples_each_model_once() {
    let mut lib = AnimationLibrary::new();
    assert!(lib.add_model(1, vec![track(0, vec![50, 100])]));
    assert!(!lib.add_model(1, vec![track(0, vec![10])]));
    assert!(!lib.add_model(2, vec![track(0, vec![])]));
    assert!(!lib.add_model(2, vec![track(0, vec![0])]));
    let mut map = AnimationMap::new();
    assert!(try_add_animation(&lib, 75, 1, &mut map));
    // a later instant within the frame does not resample
    assert!(try_add_animation(&lib, 10, 1, &mut map));
    let parts = map.get(1).unwrap().as_ref().unwrap();
    assert_eq!(parts[0].keys, vec![KeyRef { track: 0, keyframe: 1 }]);
    // a model with no animation is recorded as such
    assert!(map.get(9).is_none());
    assert!(!try_add_animation(&lib, 75, 9, &mut map));
    assert!(map.get(9).unwrap().is_none());
    assert!(!try_add_animation(&lib, 75, 9, &mut map));
    map.reset();
    assert!(map.get(1).is_none());
    assert!(map.get(9).is_none());
}
