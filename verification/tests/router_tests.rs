use lazysync::cache::CacheData;
use lazysync::entry::FileInfo;
use lazysync::protocol::{DirEntries, Response};
use lazysync::router::{route_response, RequestRouter};

fn response(id: u64, path: &str) -> Response {
    Response {
        id,
        path: path.to_string(),
        data: vec![DirEntries {
            absolute_path: path.to_string(),
            entries: vec![FileInfo {
                name: "f".to_string(),
                file_type: "file".to_string(),
                permissions: "-rw-r--r--".to_string(),
                absolute_path: format!("{}/f", path),
                modified: "N/A".to_string(),
                size: 1,
            }],
        }],
    }
}

#[test]
fn ids_count_up_from_one() {
    let mut router: RequestRouter<&str> = RequestRouter::new();
    assert_eq!(router.latest_id(), 0);
    assert_eq!(router.register("a"), 1);
    assert_eq!(router.next_id(), 2);
    assert_eq!(router.register("b"), 3);
    assert_eq!(router.latest_id(), 3);
    assert!(router.is_pending(1));
    assert!(!router.is_pending(2));
    assert!(router.is_pending(3));
}

#[test]
fn responses_are_routed_by_id_in_any_order() {
    let mut router: RequestRouter<String> = RequestRouter::new();
    let a = router.register("first".to_string());
    let b = router.register("second".to_string());
    let c = router.register("third".to_string());
    assert_eq!(router.take(b), Some("second".to_string()));
    assert_eq!(router.take(c), Some("third".to_string()));
    assert_eq!(router.take(a), Some("first".to_string()));
    assert!(!router.is_pending(a) && !router.is_pending(b) && !router.is_pending(c));
}

#[test]
fn a_response_is_delivered_at_most_once() {
    let mut router: RequestRouter<u8> = RequestRouter::new();
    let id = router.register(7);
    assert_eq!(router.take(id), Some(7));
    assert_eq!(router.take(id), None);
}

#[test]
fn unknown_id_wakes_nobody() {
    let mut router: RequestRouter<u8> = RequestRouter::new();
    let id = router.register(7);
    assert_eq!(router.take(id + 1), None);
    assert_eq!(router.take(0), None);
    assert!(router.is_pending(id));
}

#[test]
fn expired_request_is_removed() {
    let mut router: RequestRouter<u8> = RequestRouter::new();
    let id = router.register(7);
    assert!(router.expire(id));
    assert!(!router.is_pending(id));
    assert!(!router.expire(id));
    assert_eq!(router.take(id), None);
}

#[test]
fn late_response_still_reaches_the_cache() {
    let mut router: RequestRouter<u8> = RequestRouter::new();
    let mut cache = CacheData::new();
    let id = router.register(7);
    router.expire(id);
    let waiter = route_response(&mut router, &mut cache, &response(id, "/late"));
    assert_eq!(waiter, None);
    assert_eq!(cache.get("/late").expect("cached").len(), 1);
}

#[test]
fn route_response_wakes_the_waiter_and_updates_the_cache() {
    let mut router: RequestRouter<&str> = RequestRouter::new();
    let mut cache = CacheData::new();
    let one = router.register("one");
    let two = router.register("two");
    assert_eq!(route_response(&mut router, &mut cache, &response(two, "/two")), Some("two"));
    assert!(router.is_pending(one));
    assert!(!router.is_pending(two));
    assert!(cache.get("/two").is_some());
    assert_eq!(route_response(&mut router, &mut cache, &response(one, "/one")), Some("one"));
    assert!(cache.get("/one").is_some());
    assert_eq!(router.latest_id(), 2);
}
