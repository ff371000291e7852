use rvm::routing::{forwarded_target, route_request};

#[test]
fn bare_key_forwards_root() {
    let (key, forward) = route_request(&b"/key".to_vec());
    assert_eq!(key, b"key".to_vec());
    assert_eq!(forward, b"".to_vec());
    assert_eq!(forwarded_target(&forward), b"/".to_vec());
}

#[test]
fn key_with_path_and_query() {
    let (key, forward) = route_request(&b"/key/a/b?x=1".to_vec());
    assert_eq!(key, b"key".to_vec());
    assert_eq!(forward, b"a/b?x=1".to_vec());
    assert_eq!(forwarded_target(&forward), b"/a/b?x=1".to_vec());
}

#[test]
fn key_with_query_only() {
    let (key, forward) = route_request(&b"/key?x=1".to_vec());
    assert_eq!(key, b"key".to_vec());
    assert_eq!(forward, b"?x=1".to_vec());
    assert_eq!(forwarded_target(&forward), b"/?x=1".to_vec());
}

#[test]
fn extra_leading_slashes_are_trimmed() {
    let (key, forward) = route_request(&b"//x/y".to_vec());
    assert_eq!(key, b"x".to_vec());
    assert_eq!(forward, b"y".to_vec());
}

#[test]
fn key_with_trailing_slash() {
    let (key, forward) = route_request(&b"/echo/".to_vec());
    assert_eq!(key, b"echo".to_vec());
    assert_eq!(forward, b"".to_vec());
    assert_eq!(forwarded_target(&forward), b"/".to_vec());
}

#[test]
fn echo_scenario_target() {
    let (key, forward) = route_request(&b"/echo/hello?n=1".to_vec());
    assert_eq!(key, b"echo".to_vec());
    assert_eq!(forwarded_target(&forward), b"/hello?n=1".to_vec());
}

#[test]
fn root_path_with_query() {
    let (key, forward) = route_request(&b"/?a=b".to_vec());
    assert_eq!(key, b"".to_vec());
    assert_eq!(forward, b"?a=b".to_vec());
}

#[test]
fn empty_target() {
    let (key, forward) = route_request(&b"".to_vec());
    assert_eq!(key, b"".to_vec());
    assert_eq!(forward, b"".to_vec());
}
