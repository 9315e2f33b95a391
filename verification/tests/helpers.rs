use c19::helpers::http::responses::{last_segment, same_bytes, Responses};
use c19::helpers::middlewares::json::wrap_json_response;
use c19::helpers::text::{push_decimal, to_decimal};
use c19::helpers::utils::{epoch, epoch_from, millis_to_u64, Sample};

#[test]
fn epoch_is_today_in_milliseconds() {
    // 2020-09-13 in milliseconds, and well before the year 5000.
    let now = epoch();
    assert!(now > 1_600_000_000_000);
    assert!(now < 100_000_000_000_000);
}

#[test]
fn epoch_falls_back_to_zero() {
    assert_eq!(epoch_from(Some(1_601_241_450_390)), 1_601_241_450_390);
    assert_eq!(epoch_from(Some(u64::MAX as u128)), u64::MAX);
    assert_eq!(epoch_from(Some(u64::MAX as u128 + 1)), 0);
    assert_eq!(epoch_from(None), 0);
    assert_eq!(millis_to_u64(5), 5);
    assert_eq!(millis_to_u64(u128::MAX), 0);
}

#[test]
fn sample_returns_all_of_a_small_pool_in_order() {
    assert_eq!(vec![1, 2, 3].sample(3), vec![1, 2, 3]);
    assert_eq!(vec![1, 2, 3].sample(10), vec![1, 2, 3]);
    assert_eq!(vec![1, 2, 3].sample(usize::MAX), vec![1, 2, 3]);
    assert_eq!(Vec::<u8>::new().sample(2), Vec::<u8>::new());
}

#[test]
fn sample_draws_without_repetition() {
    let pool: Vec<u32> = (0..100).collect();
    for _ in 0..50 {
        let mut picked = pool.clone().sample(7);
        assert_eq!(picked.len(), 7);
        assert!(picked.iter().all(|p| *p < 100));
        picked.sort();
        picked.dedup();
        assert_eq!(picked.len(), 7);
    }
    assert_eq!(pool.sample(0), Vec::<u32>::new());
}

#[test]
fn sample_is_not_the_head_of_the_pool_every_time() {
    let pool: Vec<u32> = (0..1000).collect();
    let mut moved = false;
    for _ in 0..20 {
        if pool.clone().sample(3) != vec![0, 1, 2] {
            moved = true;
        }
    }
    assert!(moved);
}

#[test]
fn decimal_text_of_numbers() {
    assert_eq!(to_decimal(0), "0");
    assert_eq!(to_decimal(7), "7");
    assert_eq!(to_decimal(10), "10");
    assert_eq!(to_decimal(4097), "4097");
    assert_eq!(to_decimal(u64::MAX), "18446744073709551615");
    let mut text = "port ".to_string();
    push_decimal(&mut text, 3097);
    assert_eq!(text, "port 3097");
}

#[test]
fn responses_by_status() {
    let r = Responses::response(418, b"tea".to_vec());
    assert_eq!((r.status, r.body, r.content_type), (418, b"tea".to_vec(), None));
    let r = Responses::ok(b"{}".to_vec());
    assert_eq!((r.status, r.body), (200, b"{}".to_vec()));
    let r = Responses::not_found(None);
    assert_eq!((r.status, r.body), (404, b"not found".to_vec()));
    let r = Responses::not_found(Some(b"gone".to_vec()));
    assert_eq!((r.status, r.body), (404, b"gone".to_vec()));
    let r = Responses::bad_request(None);
    assert_eq!((r.status, r.body), (400, b"bad request".to_vec()));
    let r = Responses::no_content();
    assert_eq!((r.status, r.body), (204, Vec::new()));
    let r = Responses::unprocessable(None);
    assert_eq!((r.status, r.body), (422, b"malformed input".to_vec()));
    let r = Responses::internal_error(None);
    assert_eq!((r.status, r.body), (500, b"internal error".to_vec()));
    let r = Responses::internal_error(Some(b"why".to_vec()));
    assert_eq!((r.status, r.body), (500, b"why".to_vec()));
}

#[test]
fn json_wrapper_sets_the_content_type() {
    let r = wrap_json_response(Responses::not_found(None));
    assert_eq!(r.status, 404);
    assert_eq!(r.body, b"not found".to_vec());
    assert_eq!(r.content_type, Some("application/json".to_string()));
}

#[test]
fn last_segment_follows_the_last_slash() {
    assert_eq!(last_segment(b"/cat"), b"cat");
    assert_eq!(last_segment(b"/a/b/cat"), b"cat");
    assert_eq!(last_segment(b"/"), b"");
    assert_eq!(last_segment(b""), b"");
    assert_eq!(last_segment(b"cat"), b"cat");
    assert_eq!(last_segment(b"/cat/"), b"");
}

#[test]
fn same_bytes_compares_byte_for_byte() {
    assert!(same_bytes(b"", b""));
    assert!(same_bytes(b"abc", b"abc"));
    assert!(!same_bytes(b"abc", b"abd"));
    assert!(!same_bytes(b"abc", b"ab"));
}
