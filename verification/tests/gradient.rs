use yato_ae_gradient::dither::dither_hash;
use yato_ae_gradient::stops::{
    collect_stops, gradient_stops, sample_stops, sort_stops, stable_order, Sample, StopEntry, StopSource,
};

fn keys_of(stops: &[StopEntry]) -> Vec<u32> {
    stops.iter().map(|s| s.key).collect()
}

#[test]
fn collect_keeps_enabled_mids_in_slot_order() {
    let stops = collect_stops(0, &[Some(70), None, Some(20)], 100);
    assert_eq!(
        stops,
        vec![
            StopEntry { key: 0, source: StopSource::Start },
            StopEntry { key: 70, source: StopSource::Mid(0) },
            StopEntry { key: 20, source: StopSource::Mid(2) },
            StopEntry { key: 100, source: StopSource::End },
        ]
    );
}

#[test]
fn collect_without_mids_has_two_stops() {
    let stops = collect_stops(5, &[None, None, None], 9);
    assert_eq!(keys_of(&stops), vec![5, 9]);
    assert_eq!(stops[0].source, StopSource::Start);
    assert_eq!(stops[1].source, StopSource::End);
}

#[test]
fn stable_order_sorts_and_keeps_ties() {
    assert_eq!(stable_order(&vec![30, 10, 20, 10]), vec![1, 3, 2, 0]);
    assert_eq!(stable_order(&vec![]), Vec::<usize>::new());
    assert_eq!(stable_order(&vec![7, 7, 7]), vec![0, 1, 2]);
    assert_eq!(stable_order(&vec![3, 2, 1]), vec![2, 1, 0]);
}

#[test]
fn sort_stops_orders_by_key() {
    let stops = collect_stops(0, &[Some(70), None, Some(20)], 100);
    let sorted = sort_stops(&stops);
    assert_eq!(keys_of(&sorted), vec![0, 20, 70, 100]);
    assert_eq!(sorted[1].source, StopSource::Mid(2));
    assert_eq!(sorted[2].source, StopSource::Mid(0));
}

#[test]
fn start_stays_first_and_end_last_on_ties() {
    // Optional stops placed exactly on the start and end positions.
    let sorted = gradient_stops(0, &[Some(100), Some(0), Some(50)], 100);
    let sources: Vec<StopSource> = sorted.iter().map(|s| s.source).collect();
    assert_eq!(
        sources,
        vec![StopSource::Start, StopSource::Mid(1), StopSource::Mid(2), StopSource::Mid(0), StopSource::End]
    );
}

#[test]
fn sample_clamps_at_both_ends() {
    let keys = vec![10, 50, 90];
    assert_eq!(sample_stops(&keys, 0), Sample::Stop(0));
    assert_eq!(sample_stops(&keys, 10), Sample::Stop(0));
    assert_eq!(sample_stops(&keys, 90), Sample::Stop(2));
    assert_eq!(sample_stops(&keys, 200), Sample::Stop(2));
}

#[test]
fn sample_picks_the_segment_that_reaches_t() {
    let keys = vec![10, 50, 90];
    assert_eq!(sample_stops(&keys, 11), Sample::Blend(0));
    assert_eq!(sample_stops(&keys, 50), Sample::Blend(0));
    assert_eq!(sample_stops(&keys, 51), Sample::Blend(1));
    assert_eq!(sample_stops(&keys, 89), Sample::Blend(1));
}

#[test]
fn sample_with_duplicate_keys_takes_the_first_reaching_segment() {
    let keys = vec![0, 40, 40, 100];
    assert_eq!(sample_stops(&keys, 40), Sample::Blend(0));
    assert_eq!(sample_stops(&keys, 41), Sample::Blend(2));
}

#[test]
fn sample_without_stops_is_black() {
    assert_eq!(sample_stops(&vec![], 3), Sample::Black);
}

#[test]
fn sample_with_one_stop_is_that_stop() {
    assert_eq!(sample_stops(&vec![5], 0), Sample::Stop(0));
    assert_eq!(sample_stops(&vec![5], 9), Sample::Stop(0));
}

#[test]
fn dither_hash_known_values() {
    assert_eq!(dither_hash(0, 0), 0);
    assert_eq!(dither_hash(1, 0), 3443744781);
    assert_eq!(dither_hash(0, 1), 3472766729);
    assert_eq!(dither_hash(10, 20), 931574472);
    assert_eq!(dither_hash(-1, -1), 1287780932);
    assert_eq!(dither_hash(123, 456), 945343780);
}

#[test]
fn dither_hash_is_deterministic() {
    assert_eq!(dither_hash(77, -3), dither_hash(77, -3));
    assert_ne!(dither_hash(1, 2), dither_hash(2, 1));
}
