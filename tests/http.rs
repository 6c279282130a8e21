use queue_to_http::{
    decode, make_url, map_message, parse_message, DecodeError, HttpMethod, RequestBuilder,
};

#[test]
fn http_parse_happy() {
    let r = parse_message(r#"{"Key1":"One", "Key2": "Two", "Key3":3}"#)
        .unwrap()
        .expect("could not parse message");

    assert_eq!("One", r.get("Key1").unwrap().as_str().unwrap());
    assert_eq!("Two", r.get("Key2").unwrap().as_str().unwrap());
    assert_eq!(3, r.get("Key3").unwrap().as_u64().unwrap());
}

#[test]
fn parse_unhappy() {
    match parse_message(r#"{"Key1":"One", "Key2": "Two", Key3:3}"#) {
        Ok(_) => panic!("ok"),
        Err(_) => println!(
            "some error, which is what we expect. (we get an error back though which is nice)"
        ),
    }
}

#[test]
fn map_message_happy() {
    match map_message(r#"{"Key1":"One", "Key2": "Two"}"#) {
        Some(map) => {
            assert_eq!(2, map.len());
            assert_eq!("One", map.get("Key1").unwrap());
            assert_eq!("Two", map.get("Key2").unwrap());
        }
        None => panic!("we got none"),
    }
}

#[test]
fn map_message_unhappy() {
    match map_message("") {
        Some(_) => panic!("we got some"),
        None => println!("we got none"),
    }
}

#[test]
fn make_url_happy() {
    let url = make_url(
        String::from("http://localhost:8080/api/v1/<Key1>/<Key2>"),
        vec![
            ("Key1".to_string(), "One".to_string()),
            ("Key2".to_string(), "Two".to_string()),
        ]
        .into_iter()
        .collect(),
    );

    assert_eq!("http://localhost:8080/api/v1/One/Two", url);
}

#[test]
fn make_url_lowercase_keys() {
    let url = make_url(
        String::from("http://localhost:8080/api/v1/<Key1>/<Key2>"),
        vec![
            ("key1".to_string(), "One".to_string()),
            ("key2".to_string(), "Two".to_string()),
        ]
        .into_iter()
        .collect(),
    );

    assert_eq!("http://localhost:8080/api/v1/One/Two", url);
}

#[test]
fn request_builder_builds_correct_request() {
    let server_uri = "http://127.0.0.1:8080";
    let tests = vec![
        (
            HttpMethod::GET,
            "/api/v1/One/Two",
            "/api/v1/<Key1>/<Key2>",
            r#"{"Key1":"One", "Key2": "Two"}"#,
        ),
        (
            HttpMethod::POST,
            "/api/v1",
            "/api/v1",
            r#"{"Key1":"One", "Key2": "Two"}"#,
        ),
    ];

    for (http_method, endpoint, pattern, msg) in tests {
        let request_builder =
            RequestBuilder::new(http_method, String::from(format!("{}{}", server_uri, pattern)));
        let request = request_builder.build(msg).unwrap();

        assert_eq!(http_method, request.method);
        assert_eq!(format!("{}{}", server_uri, endpoint), request.url);
        match http_method {
            HttpMethod::GET => assert_eq!(None, request.body),
            HttpMethod::POST => assert_eq!(Some(msg.to_string()), request.body),
        }
    }
}

#[test]
fn get_scenario_fills_placeholders() {
    let rb = RequestBuilder::new(HttpMethod::GET, "https://host/<Key1>/<Key2>".to_string());
    let d = rb.build(r#"{"Key1":"One","Key2":"Two"}"#).unwrap();
    assert_eq!(HttpMethod::GET, d.method);
    assert_eq!("https://host/One/Two", d.url);
    assert_eq!(None, d.body);
}

#[test]
fn get_scenario_lowercase_keys() {
    let rb = RequestBuilder::new(HttpMethod::GET, "https://host/<Key1>/<Key2>".to_string());
    let d = rb.build(r#"{"key1":"One","key2":"Two"}"#).unwrap();
    assert_eq!("https://host/One/Two", d.url);
}

#[test]
fn post_scenario_keeps_pattern_and_body() {
    let rb = RequestBuilder::new(HttpMethod::POST, "/api/v1".to_string());
    let d = rb.build(r#"{"Key1":"One"}"#).unwrap();
    assert_eq!(HttpMethod::POST, d.method);
    assert_eq!("/api/v1", d.url);
    assert_eq!(Some(r#"{"Key1":"One"}"#.to_string()), d.body);
}

#[test]
fn post_body_is_raw_even_when_not_json() {
    let rb = RequestBuilder::new(HttpMethod::POST, "/x/<Key1>".to_string());
    let d = rb.build("not json {").unwrap();
    assert_eq!("/x/<Key1>", d.url);
    assert_eq!(Some("not json {".to_string()), d.body);
}

#[test]
fn get_not_json_gives_no_request() {
    let rb = RequestBuilder::new(HttpMethod::GET, "/x/<Key1>".to_string());
    assert!(rb.build("not json").is_none());
}

#[test]
fn get_non_object_gives_no_request() {
    let rb = RequestBuilder::new(HttpMethod::GET, "/x/<Key1>".to_string());
    assert!(rb.build("[1, 2]").is_none());
    assert!(rb.build(r#""text""#).is_none());
}

#[test]
fn get_without_string_fields_gives_no_request() {
    let rb = RequestBuilder::new(HttpMethod::GET, "/x/<Key1>".to_string());
    assert!(rb.build(r#"{"Key1": 1, "Key2": null, "Key3": [1]}"#).is_none());
    assert!(rb.build("{}").is_none());
}

#[test]
fn decode_drops_non_string_fields() {
    let m = decode(r#"{"A":"x","B":5,"C":true}"#).unwrap();
    assert_eq!(1, m.len());
    assert_eq!("x", m.get("A").unwrap());
    assert!(m.get("B").is_none());
    assert!(m.get("C").is_none());
    let pairs = m.into_pairs();
    assert_eq!(vec![("A".to_string(), "x".to_string())], pairs);
}

#[test]
fn decode_malformed_is_an_error() {
    assert_eq!(DecodeError::Malformed, decode("{\"A\":").unwrap_err());
    assert_eq!(DecodeError::Malformed, decode("").unwrap_err());
}

#[test]
fn decode_non_object_has_no_fields() {
    let m = decode("42").unwrap();
    assert_eq!(0, m.len());
    assert!(m.is_empty());
}

#[test]
fn parse_non_object_is_none() {
    assert!(parse_message("[\"a\"]").unwrap().is_none());
}

#[test]
fn make_url_order_of_keys_does_not_matter() {
    let a = make_url(
        "/<A>/<B>/<A>".to_string(),
        vec![("a".to_string(), "1".to_string()), ("b".to_string(), "2".to_string())],
    );
    let b = make_url(
        "/<A>/<B>/<A>".to_string(),
        vec![("b".to_string(), "2".to_string()), ("a".to_string(), "1".to_string())],
    );
    assert_eq!("/1/2/1", a);
    assert_eq!(a, b);
}

#[test]
fn make_url_capitalizes_only_the_first_character() {
    let url = make_url(
        "/<KeyOne>/<Keyone>".to_string(),
        vec![("keyone".to_string(), "v".to_string())],
    );
    assert_eq!("/<KeyOne>/v", url);
}

#[test]
fn make_url_leaves_unknown_placeholders() {
    let url = make_url("/<Missing>/<Key>".to_string(), vec![("key".to_string(), "k".to_string())]);
    assert_eq!("/<Missing>/k", url);
    assert_eq!("/plain", make_url("/plain".to_string(), vec![]));
}

#[test]
fn make_url_does_not_rescan_values() {
    let url = make_url(
        "<A>".to_string(),
        vec![("a".to_string(), "<B>".to_string()), ("b".to_string(), "x".to_string())],
    );
    assert_eq!("<B>", url);
}

#[test]
fn make_url_non_ascii_text() {
    let url = make_url("/é/<Ü>/<K>".to_string(), vec![("k".to_string(), "ß".to_string())]);
    assert_eq!("/é/<Ü>/ß", url);
}

#[test]
fn method_from_name() {
    assert_eq!(HttpMethod::POST, HttpMethod::from_name("POST"));
    assert_eq!(HttpMethod::GET, HttpMethod::from_name("GET"));
    assert_eq!(HttpMethod::GET, HttpMethod::from_name("post"));
    assert_eq!(HttpMethod::GET, HttpMethod::from_name("DELETE"));
}

#[test]
fn builder_getters() {
    let rb = RequestBuilder::new(HttpMethod::POST, "/p".to_string());
    assert_eq!(HttpMethod::POST, rb.method());
    assert_eq!("/p", rb.pattern());
}
