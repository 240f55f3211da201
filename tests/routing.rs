use rheomesh::config::MediaConfig;
use rheomesh::router::{DataPublisherEntry, PublisherEntry, Router, RouterEvent};
use webrtc::rtp_transceiver::rtp_codec::RTCRtpHeaderExtensionParameters;

fn published(id: &str, handle: u32) -> RouterEvent<u32, u32> {
    RouterEvent::TrackPublished(PublisherEntry {
        id: id.to_string(),
        extmap: vec![RTCRtpHeaderExtensionParameters {
            uri: "urn:ietf:params:rtp-hdrext:sdes:mid".to_string(),
            id: 4,
        }],
        publisher: handle,
    })
}

#[test]
fn new_router_is_empty() {
    let router: Router<u32, u32> = Router::new(MediaConfig::default());
    assert!(router.publisher_ids().is_empty());
    assert!(router.data_publisher_ids().is_empty());
    assert_eq!(router.id().len(), 36);
}

#[test]
fn late_subscriber_sees_existing_publisher() {
    let mut router: Router<u32, u32> = Router::new(MediaConfig::default());
    assert!(router.apply(published("v1", 7)));
    assert_eq!(router.publisher_ids(), vec!["v1".to_string()]);
    assert_eq!(router.get_publisher("v1"), Some(&7));
    assert_eq!(router.get_publisher("v2"), None);
}

#[test]
fn publisher_disconnect_removes_track() {
    let mut router: Router<u32, u32> = Router::new(MediaConfig::default());
    router.apply(published("v1", 1));
    router.apply(published("a1", 2));
    assert!(router.apply(RouterEvent::TrackRemoved("v1".to_string())));
    assert_eq!(router.publisher_ids(), vec!["a1".to_string()]);
    assert_eq!(router.get_publisher("v1"), None);
    assert_eq!(router.get_publisher("a1"), Some(&2));
}

#[test]
fn republishing_an_id_keeps_one_entry() {
    let mut router: Router<u32, u32> = Router::new(MediaConfig::default());
    router.apply(published("v1", 1));
    router.apply(published("v1", 9));
    assert_eq!(router.publisher_ids(), vec!["v1".to_string()]);
    assert_eq!(router.get_publisher("v1"), Some(&9));
}

#[test]
fn removing_an_unknown_id_changes_nothing() {
    let mut router: Router<u32, u32> = Router::new(MediaConfig::default());
    router.apply(published("v1", 1));
    router.apply(RouterEvent::TrackRemoved("zz".to_string()));
    assert_eq!(router.publisher_ids(), vec!["v1".to_string()]);
}

#[test]
fn data_publishers_are_kept_apart_from_tracks() {
    let mut router: Router<u32, u32> = Router::new(MediaConfig::default());
    router.apply(RouterEvent::DataPublished(DataPublisherEntry {
        id: "d1".to_string(),
        data_publisher: 5,
    }));
    assert_eq!(router.data_publisher_ids(), vec!["d1".to_string()]);
    assert!(router.publisher_ids().is_empty());
    assert_eq!(router.get_data_publisher("d1"), Some(&5));
    router.apply(RouterEvent::DataRemoved("d1".to_string()));
    assert!(router.data_publisher_ids().is_empty());
    assert_eq!(router.get_data_publisher("d1"), None);
}

#[test]
fn closed_event_ends_the_loop() {
    let mut router: Router<u32, u32> = Router::new(MediaConfig::default());
    router.apply(published("v1", 1));
    assert!(!router.apply(RouterEvent::Closed));
    assert_eq!(router.publisher_ids(), vec!["v1".to_string()]);
}

#[test]
fn publishers_extmap_lists_each_track() {
    let mut router: Router<u32, u32> = Router::new(MediaConfig::default());
    router.apply(published("v1", 1));
    router.apply(published("a1", 2));
    let m = router.publishers_extmap();
    assert_eq!(m.len(), 2);
    assert_eq!(m[0].0, "v1");
    assert_eq!(m[1].0, "a1");
    assert_eq!(m[0].1[0].id, 4);
    assert_eq!(m[0].1[0].uri, "urn:ietf:params:rtp-hdrext:sdes:mid");
}
