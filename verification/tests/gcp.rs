use blueshoes::edge::gcp::{
    bearer, cache_entry, claims_for, fresh_token, FirestoreClient, GcpAuth, LoggingClient, PubSubClient,
    SecretManagerClient, ServiceAccountKey, SpannerMemoryFabric, StorageClient,
};

fn auth() -> GcpAuth {
    GcpAuth::from_key(ServiceAccountKey {
        client_email: "svc@p.iam.gserviceaccount.com".to_string(),
        private_key: "pem".to_string(),
        private_key_id: "kid".to_string(),
        token_uri: "https://oauth2.googleapis.com/token".to_string(),
    })
}

#[test]
fn token_cache_rule() {
    let cache = Some(("tok".to_string(), 1000u64));
    assert_eq!(fresh_token(&cache, 939).as_deref(), Some("tok"));
    assert_eq!(fresh_token(&cache, 940), None);
    assert_eq!(fresh_token(&None, 0), None);
    assert_eq!(fresh_token(&Some(("t".to_string(), 30)), 0), None);
    assert_eq!(cache_entry("t".to_string(), 100, 3599), Some(("t".to_string(), 3699)));
    let c = claims_for(auth().key(), 1000);
    assert_eq!(c.iat, 1000);
    assert_eq!(c.exp, 4600);
    assert_eq!(c.scope, "https://www.googleapis.com/auth/cloud-platform");
    assert_eq!(c.aud, "https://oauth2.googleapis.com/token");
    assert_eq!(bearer("abc"), "Bearer abc");
}

#[test]
fn request_urls_and_bodies() {
    let f = FirestoreClient::new(auth(), "proj");
    assert_eq!(f.document_url("c", "d"), "https://firestore.googleapis.com/v1/projects/proj/databases/(default)/documents/c/d");
    let l = LoggingClient::new(auth(), "proj", "edge log/1");
    assert_eq!(l.log_name, "projects/proj/logs/edge%20log%2F1");
    assert_eq!(
        l.entry_body("hi", "2026-01-01T00:00:00+00:00"),
        r#"{"entries":[{"logName":"projects/proj/logs/edge%20log%2F1","textPayload":"hi","timestamp":"2026-01-01T00:00:00+00:00"}]}"#
    );
    let p = PubSubClient::new(auth(), "proj", "t");
    assert_eq!(p.publish_url(), "https://pubsub.googleapis.com/v1/projects/proj/topics/t:publish");
    assert_eq!(p.publish_body("hello"), r#"{"messages":[{"data":"aGVsbG8="}]}"#);
    let s = SecretManagerClient::new(auth(), "proj");
    assert_eq!(s.access_url("k"), "https://secretmanager.googleapis.com/v1/projects/proj/secrets/k/versions/latest:access");
    assert_eq!(SecretManagerClient::decode_payload("c2VjcmV0").unwrap(), "secret");
    assert!(SecretManagerClient::decode_payload("***").is_err());
    assert!(SecretManagerClient::decode_payload("/w==").is_err());
    let sp = SpannerMemoryFabric::new(auth(), "p", "i", "d");
    assert_eq!(sp.session_url(), "https://spanner.googleapis.com/v1/projects/p/instances/i/databases/d/sessions");
    assert_eq!(SpannerMemoryFabric::execute_url("projects/p/sessions/s"), "https://spanner.googleapis.com/v1/projects/p/sessions/s:executeSql");
    assert_eq!(SpannerMemoryFabric::execute_body("SELECT 1"), r#"{"sql":"SELECT 1"}"#);
    assert!(SpannerMemoryFabric::blocks_write("delete from t"));
    assert!(SpannerMemoryFabric::blocks_write("InSeRt INTO t"));
    assert!(!SpannerMemoryFabric::blocks_write("SELECT * FROM t"));
    let st = StorageClient::new(auth(), "b");
    assert_eq!(st.upload_url("a b.txt"), "https://storage.googleapis.com/upload/storage/v1/b/b/o?uploadType=media&name=a%20b.txt");
}

#[test]
fn spanner_replies_are_judged_by_status_and_session() {
    assert_eq!(
        SpannerMemoryFabric::session_step(403, Some("s")).unwrap_err(),
        "Failed to create Spanner session: 403"
    );
    assert_eq!(SpannerMemoryFabric::session_step(200, None).unwrap_err(), "Missing session name");
    assert_eq!(
        SpannerMemoryFabric::session_step(200, Some("projects/p/instances/i/databases/d/sessions/s1")).unwrap(),
        "https://spanner.googleapis.com/v1/projects/p/instances/i/databases/d/sessions/s1:executeSql"
    );
    assert_eq!(SpannerMemoryFabric::execute_step(500).unwrap_err(), "Failed to execute SQL: 500");
    assert!(SpannerMemoryFabric::execute_step(200).is_ok());
}
