use poster::http_params::{HttpParams, HttpParamsBuilder, HttpParamsError};
use poster::init_params::{InitParams, InitParamsBuilder};

#[test]
fn http_params_defaults() {
    let params: HttpParams = Default::default();
    assert_eq!(params.host, "127.0.0.1");
    assert_eq!(params.port, 2201);
    assert_eq!(params.static_path, "static");
}

#[test]
fn http_builder_builds_defaults() {
    let builder = HttpParamsBuilder::new();
    let params = builder.build().expect("build never fails");
    assert_eq!(params.host, "127.0.0.1");
    assert_eq!(params.port, 2201);
    assert_eq!(params.static_path, "static");
}

#[test]
fn http_builder_sets_fields() {
    let mut builder = HttpParamsBuilder::new();
    builder
        .host("0.0.0.0".to_string())
        .expect("non-empty host is accepted");
    builder.port(8080).expect("non-zero port is accepted");
    builder
        .static_path("assets".to_string())
        .expect("any static path is accepted");
    let params = builder.build().expect("build never fails");
    assert_eq!(params.host, "0.0.0.0");
    assert_eq!(params.port, 8080);
    assert_eq!(params.static_path, "assets");
}

#[test]
fn http_builder_refuses_empty_host() {
    let mut builder = HttpParamsBuilder::new();
    let err = builder.host(String::new()).unwrap_err();
    assert_eq!(err, HttpParamsError::InvalidHost);
    // The refused value left the builder untouched.
    let params = builder.build().expect("build never fails");
    assert_eq!(params.host, "127.0.0.1");
}

#[test]
fn http_builder_refuses_port_zero() {
    let mut builder = HttpParamsBuilder::new();
    let err = builder.port(0).unwrap_err();
    assert_eq!(err, HttpParamsError::InvalidPort);
    let params = builder.build().expect("build never fails");
    assert_eq!(params.port, 2201);
}

#[test]
fn init_params_defaults() {
    let params: InitParams = Default::default();
    assert_eq!(params.static_path, "static");
    assert_eq!(params.database_path, "poster.db");
}

#[test]
fn init_builder_sets_fields() {
    let mut builder = InitParamsBuilder::new();
    builder
        .static_path("public".to_string())
        .expect("any static path is accepted");
    builder
        .database_path("data/posts.db".to_string())
        .expect("any database path is accepted");
    let params = builder.build().expect("build never fails");
    assert_eq!(params.static_path, "public");
    assert_eq!(params.database_path, "data/posts.db");
}

#[test]
fn init_builder_builds_defaults() {
    let builder = InitParamsBuilder::new();
    let params = builder.build().expect("build never fails");
    assert_eq!(params.static_path, "static");
    assert_eq!(params.database_path, "poster.db");
}
