use selfsonic::api::auth::base_params;
use selfsonic::api::client::Client;

#[test]
fn base_params_contains_expected_keys() {
    let params = base_params("alice", "s3cret", "1.16.1", "SELFsonic");
    let map: std::collections::HashMap<_, _> = params.into_iter().collect();
    assert_eq!(map.get("u").unwrap(), "alice");
    assert_eq!(map.get("p").unwrap(), "s3cret");
    assert_eq!(map.get("v").unwrap(), "1.16.1");
    assert_eq!(map.get("c").unwrap(), "SELFsonic");
    assert_eq!(map.get("f").unwrap(), "json");
}

#[test]
fn url_percent_encodes_param_values() {
    let client = Client::new("http://example.com", "user", "p@ss word&x=1%#").unwrap();
    let url = client.url("ping", &[("id", "track id 1".into())]);
    let (_, query) = url.split_once('?').expect("query string expected");
    let params: std::collections::HashMap<_, _> = query
        .split('&')
        .map(|pair| {
            let (k, v) = pair.split_once('=').expect("key=value pair");
            let v = percent_encoding::percent_decode_str(v)
                .decode_utf8()
                .unwrap()
                .to_string();
            (k, v)
        })
        .collect();
    assert_eq!(params.get("p").unwrap(), "p@ss word&x=1%#");
    assert_eq!(params.get("id").unwrap(), "track id 1");
    assert!(!query.contains("p@ss word"));
}
