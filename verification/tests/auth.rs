use subtidal::auth::{
    authenticate, check_password, ct_eq, hex_text, require_auth, lockout_duration, md5_hex,
    rate_limit_enabled, read_capped, to_ascii_lowercase, AuthRateLimiter, BodyTooLarge, Client,
    MAX_BODY_BYTES, MAX_TRACKED_IPS,
};
use subtidal::params::QueryParams;
use subtidal::settings::{LabelsConfig, Settings, TranscodeConfig};

fn settings() -> Settings {
    Settings {
        username: "alice".to_string(),
        password: "sesame".to_string(),
        port: 4040,
        bind_addr: "0.0.0.0".to_string(),
        api_key: None,
        tidal_client_id: None,
        tidal_client_secret: None,
        tidal_quality: "LOSSLESS".to_string(),
        show_mixes: true,
        word_synced_lyrics: false,
        rate_limit: true,
        labels: LabelsConfig { ai: false, explicit: false },
        transcode: TranscodeConfig { enabled: false },
        lastfm: None,
        listenbrainz: None,
    }
}

fn params(s: &str) -> QueryParams {
    QueryParams::from_merged(s).unwrap()
}

#[test]
fn ct_eq_matches_and_mismatches() {
    assert!(ct_eq("abc", "abc"));
    assert!(!ct_eq("abc", "abd"));
    assert!(!ct_eq("abc", "abcd"));
    assert!(ct_eq("", ""));
    assert!(!ct_eq("", "a"));
    // Case matters inside ct_eq; the callers lowercase client hex
    // input before comparing.
    assert!(!ct_eq("abc", "ABC"));
    assert!(ct_eq(&md5_hex(b"x"), &md5_hex(b"x")));
}

#[test]
fn lockout_delay_doubles_and_caps() {
    let base = 2;
    let max = 600;
    assert_eq!(lockout_duration(1, base, max), 2);
    assert_eq!(lockout_duration(2, base, max), 4);
    assert_eq!(lockout_duration(3, base, max), 8);
    assert_eq!(lockout_duration(4, base, max), 16);
    assert_eq!(lockout_duration(9, base, max), 512);
    assert_eq!(lockout_duration(10, base, max), 600);
    assert_eq!(lockout_duration(99, base, max), 600);
}

#[test]
fn failure_locks_then_expires() {
    let mut limiter = AuthRateLimiter::with_params(5, 100, 12);
    let ip = Client::Unknown;
    assert!(limiter.check(ip, 1000));
    limiter.record_failure(ip, 1000);
    assert!(!limiter.check(ip, 1000), "a failed attempt must lock the IP");
    assert!(limiter.check(ip, 1030), "the lockout must expire");
}

#[test]
fn success_clears_the_lockout() {
    let mut limiter = AuthRateLimiter::with_params(60, 600, 12);
    let ip = Client::Unknown;
    limiter.record_failure(ip, 0);
    assert!(!limiter.check(ip, 0));
    limiter.record_success(ip);
    assert!(limiter.check(ip, 0));
}

#[test]
fn expired_lockout_resets_the_counter() {
    let mut limiter = AuthRateLimiter::with_params(1, 600_000, 12);
    let ip = Client::V4(0xCB00_7101);
    limiter.record_failure(ip, 0);
    assert!(!limiter.check(ip, 0));
    assert!(limiter.check(ip, 10), "the lockout must expire");
    // The counter reset on expiry, so the next failure starts again
    // at the base delay instead of doubling from the old count.
    limiter.record_failure(ip, 10);
    assert!(!limiter.check(ip, 10));
    assert!(limiter.check(ip, 11));
}

#[test]
fn failures_in_a_row_double_the_lockout() {
    let mut limiter = AuthRateLimiter::with_params(10, 1000, 3);
    let ip = Client::V6(1);
    limiter.record_failure(ip, 0);
    limiter.record_failure(ip, 0);
    assert!(!limiter.check(ip, 19));
    limiter.record_failure(ip, 0);
    limiter.record_failure(ip, 0);
    assert!(!limiter.check(ip, 39));
    assert!(limiter.check(ip, 40));
}

#[test]
fn a_locked_client_locks_no_other() {
    let mut limiter = AuthRateLimiter::with_params(10, 1000, 12);
    limiter.record_failure(Client::V4(1), 0);
    assert!(!limiter.check(Client::V4(1), 5));
    assert!(limiter.check(Client::V4(2), 5));
    assert!(limiter.check(Client::V6(1), 5));
    assert!(limiter.check(Client::Unknown, 5));
}

#[test]
fn expired_clients_are_dropped_when_there_are_many() {
    let mut limiter = AuthRateLimiter::with_params(10, 1000, 12);
    for i in 0..MAX_TRACKED_IPS as u32 {
        limiter.record_failure(Client::V4(i), 0);
    }
    assert_eq!(limiter.states.len(), MAX_TRACKED_IPS);
    limiter.record_failure(Client::V6(7), 10);
    assert_eq!(limiter.states.len(), 1);
    assert!(!limiter.check(Client::V6(7), 10));
}

#[test]
fn digests_are_those_of_the_hash() {
    assert_eq!(md5_hex(b""), "d41d8cd98f00b204e9800998ecf8427e");
    assert_eq!(md5_hex(b"abc"), "900150983cd24fb0d6963f7d28e17f72");
    assert_eq!(hex_text(&vec![0x00, 0x0f, 0xa0, 0xff]), "000fa0ff");
}

#[test]
fn letters_become_small() {
    assert_eq!(to_ascii_lowercase("ABCxyz09É"), "abcxyz09É");
}

#[test]
fn passwords_come_plain_or_as_a_digest() {
    let digest = md5_hex(b"sesame");
    assert!(check_password("sesame", "sesame"));
    assert!(check_password(&format!("enc:{digest}"), "sesame"));
    assert!(check_password(&format!("enc:{}", digest.to_uppercase()), "sesame"));
    assert!(!check_password("enc:sesame", "sesame"));
    assert!(!check_password(&digest, "sesame"));
    assert!(!check_password("", "sesame"));
}

#[test]
fn the_password_or_a_salted_token_or_the_key_logs_in() {
    let s = settings();
    assert!(authenticate(Some(&s), &params("u=alice&p=sesame")));
    assert!(!authenticate(Some(&s), &params("u=bob&p=sesame")));
    assert!(!authenticate(Some(&s), &params("p=sesame")));
    // md5("sesame" + "c19b2d")
    assert!(authenticate(Some(&s), &params("u=alice&t=26719a1196d2a940705a59634eb18eab&s=c19b2d")));
    assert!(authenticate(Some(&s), &params("u=alice&t=26719A1196D2A940705A59634EB18EAB&s=c19b2d")));
    assert!(!authenticate(Some(&s), &params("u=alice&t=26719a1196d2a940705a59634eb18eab&s=other")));
    assert!(!authenticate(Some(&s), &params("")));
    assert!(!authenticate(None, &params("u=alice&p=sesame")));
}

#[test]
fn logins_are_limited_only_where_the_limit_is_on() {
    let mut s = settings();
    let mut limiter = AuthRateLimiter::new();
    let good = params("u=alice&p=sesame");
    let bad = params("u=alice&p=wrong");
    assert!(rate_limit_enabled(Some(&s)));
    assert!(require_auth(&mut limiter, Some(&s), &good, Client::V4(1), 0).is_ok());
    assert!(require_auth(&mut limiter, Some(&s), &bad, Client::V4(1), 0).is_err());
    assert!(require_auth(&mut limiter, Some(&s), &good, Client::V4(1), 0).is_err());
    assert!(require_auth(&mut limiter, Some(&s), &good, Client::V4(1), 2_000_000_000).is_ok());
    s.rate_limit = false;
    assert!(!rate_limit_enabled(Some(&s)));
    assert!(require_auth(&mut limiter, Some(&s), &bad, Client::V4(2), 0).is_err());
    assert!(require_auth(&mut limiter, Some(&s), &good, Client::V4(2), 0).is_ok());
}

#[test]
fn bodies_are_read_up_to_the_cap() {
    let mut out = vec![1, 2];
    assert!(read_capped(&mut out, &[3, 4], 4).is_ok());
    assert_eq!(out, vec![1, 2, 3, 4]);
    assert!(matches!(read_capped(&mut out, &[5], 4), Err(BodyTooLarge)));
    assert_eq!(out, vec![1, 2, 3, 4]);
    assert_eq!(MAX_BODY_BYTES, 1024 * 1024);
}

#[test]
fn one_failure_locks_out_until_its_time_is_over() {
    let mut limiter = AuthRateLimiter::with_params(10, 1000, 12);
    let (ip, other) = (Client::V4(1), Client::V4(2));
    limiter.record_failure(ip, 100);
    for now in [100, 105, 109] {
        assert!(!limiter.check(ip, now));
        assert!(limiter.check(other, now));
    }
    assert!(limiter.check(ip, 110));
    limiter.record_failure(ip, 200);
    assert!(!limiter.check(ip, 200));
    limiter.record_success(ip);
    assert!(limiter.check(ip, 200));
}

#[test]
fn lockouts_end_after_the_last_time_there_is() {
    let mut limiter = AuthRateLimiter::with_params(10, 1000, 12);
    limiter.record_failure(Client::Unknown, u64::MAX);
    assert!(!limiter.check(Client::Unknown, u64::MAX));
    assert!(limiter.check(Client::V4(1), u64::MAX));
}
