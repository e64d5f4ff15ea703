use std::sync::Arc;
use std::time::Duration;
use subtidal::aligner::{align_key, key_for};
use subtidal::cache::{
    audio_in, audio_store, cached_audio, cached_lyrics, cached_manifest, cached_part, cached_sizes, count_warm,
    lyrics_in, lyrics_store, manifest_in, manifest_store, run_pending_cache_tasks, size_store, sizes_in, store_audio, store_lyrics,
    store_manifest, store_part, store_sizes, warm_parts, weight, Stored,
};
use subtidal::handlers::stream::Part;
use subtidal::tidal::{Asset, Quality, StreamInfo};

#[test]
fn what_was_stored_is_found_again() {
    let mut audio = audio_store();
    store_audio(&mut audio, 1, Quality::Lossless, vec![1, 2, 3]);
    run_pending_cache_tasks(&mut audio);
    match cached_audio(&audio, 1, Quality::Lossless).as_deref() {
        Some(Stored::Audio(b)) => assert_eq!(*b, vec![1, 2, 3]),
        _ => panic!("the audio is kept"),
    }
    assert!(cached_audio(&audio, 1, Quality::High).is_none());
    assert!(cached_audio(&audio, 2, Quality::Lossless).is_none());
    store_audio(&mut audio, 1, Quality::Lossless, vec![9]);
    match cached_audio(&audio, 1, Quality::Lossless).as_deref() {
        Some(Stored::Audio(b)) => assert_eq!(*b, vec![9]),
        _ => panic!("the newest audio is kept"),
    }
}

#[test]
fn manifests_sizes_and_lyrics_have_stores_of_their_own() {
    let mut manifests = manifest_store();
    let info = StreamInfo {
        quality: None,
        codec: "flac".to_string(),
        sample_rate: None,
        bit_depth: None,
        encrypted: false,
        asset: Asset::File("u".to_string()),
    };
    store_manifest(&mut manifests, 3, Quality::Atmos, info);
    assert!(matches!(cached_manifest(&manifests, 3, Quality::Atmos).as_deref(), Some(Stored::Manifest(i)) if i.codec == "flac"));
    let mut sizes = size_store();
    store_sizes(&mut sizes, 3, Quality::Low, vec![5, 6]);
    assert!(matches!(cached_sizes(&sizes, 3, Quality::Low).as_deref(), Some(Stored::Sizes(v)) if *v == vec![5, 6]));
    let mut lyrics = lyrics_store();
    store_lyrics(&mut lyrics, 3, None);
    assert!(matches!(cached_lyrics(&lyrics, 3).as_deref(), Some(Stored::Lyrics(None))));
    assert!(cached_lyrics(&lyrics, 4).is_none());
}

#[test]
fn parts_at_hand_are_counted() {
    let mut parts = audio_store();
    store_part(&mut parts, &"u0".to_string(), vec![1]);
    store_part(&mut parts, &"u2".to_string(), vec![2]);
    assert!(matches!(cached_part(&parts, &"u0".to_string()).as_deref(), Some(Stored::Audio(b)) if *b == vec![1]));
    let part = |u: Option<&str>| Part { url: u.map(String::from), skip: 0, take: 1 };
    let asked = vec![part(None), part(Some("u0")), part(Some("u1")), part(Some("u2"))];
    let warm = warm_parts(&parts, &asked);
    assert_eq!(warm, 2);
    assert_eq!(count_warm(&vec![true, false, true, true]), 3);
    assert_eq!(count_warm(&vec![]), 0);
    assert_eq!(weight(&Arc::new(Stored::Audio(vec![0; 10]))), 10);
}

#[test]
fn keys_of_alignments_name_their_track() {
    assert_ne!(key_for(1, 2), key_for(2, 1));
    let lines = vec!["a".to_string(), "b".to_string()];
    let other = vec!["ab".to_string()];
    assert_eq!(align_key(7, &lines), align_key(7, &lines));
    assert_ne!(align_key(7, &lines), align_key(7, &other));
    assert_ne!(align_key(7, &lines), align_key(8, &lines));
}

#[test]
fn stores_have_the_limits_they_were_made_with() {
    let limits = |s: &subtidal::cache::Store| (s.policy().time_to_live(), s.policy().max_capacity());
    assert_eq!(limits(&manifest_store()), (Some(Duration::from_secs(120)), Some(10_000)));
    assert_eq!(limits(&audio_store()), (Some(Duration::from_secs(300)), Some(256 * 1024 * 1024)));
    assert_eq!(limits(&size_store()), (None, Some(10_000)));
    assert_eq!(limits(&lyrics_store()), (Some(Duration::from_secs(6 * 3600)), Some(5_000)));
}

#[test]
fn what_is_of_another_kind_is_not_given_out() {
    let sizes = Arc::new(Stored::Sizes(vec![1]));
    assert!(sizes_in(Some(sizes.clone())).is_some());
    assert!(audio_in(Some(sizes.clone())).is_none());
    assert!(manifest_in(Some(sizes.clone())).is_none());
    assert!(lyrics_in(Some(sizes)).is_none());
    assert!(audio_in(None).is_none());
}
