use axum::body::{Body, Bytes};
use axum::routing::post;
use axum::Router;
use futures_util::stream;
use http::header::{HeaderValue, CONTENT_TYPE};
use http::{HeaderMap, Request};
use rms_gateway::body::map_json_body;
use rms_gateway::json_convert::ConversionDirection;
use serde_json::Value;
use std::convert::Infallible;
use tonic::codegen::Service;
use tower_http::map_request_body::MapRequestBodyLayer;
use tower_http::map_response_body::MapResponseBodyLayer;
use tower_http::set_header::SetRequestHeaderLayer;

fn recase(body: Body, direction: ConversionDirection) -> Body {
    Body::from_stream(stream::once(async move {
        let collected = axum::body::to_bytes(body, usize::MAX).await.ok();
        let rewritten = map_json_body(collected.as_deref(), direction);
        Ok::<Bytes, Infallible>(Bytes::from(rewritten))
    }))
}

fn legacy_surface(api_router: Router) -> Router {
    api_router
        .layer(MapRequestBodyLayer::new(|body| {
            recase(body, ConversionDirection::ToSnakeCase)
        }))
        .layer(MapResponseBodyLayer::new(|body| {
            recase(body, ConversionDirection::ToCamelCase)
        }))
        .layer(SetRequestHeaderLayer::overriding(
            CONTENT_TYPE,
            HeaderValue::from_static("application/json"),
        ))
}

// The inner service: answers in snake_case with what reached it.
async fn report(headers: HeaderMap, body: Bytes) -> String {
    let content_type = match headers.get(CONTENT_TYPE) {
        Some(value) => value.to_str().unwrap().to_string(),
        None => String::new(),
    };
    let mut answer = serde_json::Map::new();
    answer.insert("content_type".to_string(), Value::String(content_type));
    answer.insert(
        "received_body".to_string(),
        Value::String(String::from_utf8(body.to_vec()).unwrap()),
    );
    serde_json::to_string(&Value::Object(answer)).unwrap()
}

fn both_surfaces() -> Router {
    let api_router = Router::new().route("/beam", post(report));
    Router::new()
        .nest("/rms/api/v2", api_router.clone())
        .nest("/rms/api/v1", legacy_surface(api_router))
}

fn exchange(path: &str, content_type: Option<&str>, body: &'static [u8]) -> Vec<u8> {
    let mut builder = Request::builder().method("POST").uri(path);
    if let Some(value) = content_type {
        builder = builder.header(CONTENT_TYPE, value);
    }
    let request = builder.body(Body::from(body)).unwrap();
    let runtime = tokio::runtime::Builder::new_current_thread().build().unwrap();
    runtime.block_on(async move {
        let mut app = both_surfaces();
        let response = Service::call(&mut app, request).await.unwrap();
        axum::body::to_bytes(response.into_body(), usize::MAX).await.unwrap().to_vec()
    })
}

#[test]
fn legacy_surface_recases_both_bodies_and_marks_the_request_as_json() {
    let answer = exchange("/rms/api/v1/beam", None, b"{\"beamId\":3,\"httpURL\":\"x\"}");
    assert_eq!(
        String::from_utf8(answer).unwrap(),
        "{\"contentType\":\"application/json\",\
         \"receivedBody\":\"{\\\"beam_id\\\":3,\\\"http_url\\\":\\\"x\\\"}\"}"
    );
}

#[test]
fn legacy_surface_overrides_the_content_type_that_was_sent() {
    let answer = exchange("/rms/api/v1/beam", Some("text/plain"), b"{\"beamId\":3}");
    assert_eq!(
        String::from_utf8(answer).unwrap(),
        "{\"contentType\":\"application/json\",\"receivedBody\":\"{\\\"beam_id\\\":3}\"}"
    );
}

#[test]
fn legacy_surface_hands_on_what_is_no_json() {
    let answer = exchange("/rms/api/v1/beam", None, b"{\"beamId\":");
    assert_eq!(
        String::from_utf8(answer).unwrap(),
        "{\"contentType\":\"application/json\",\"receivedBody\":\"{\\\"beamId\\\":\"}"
    );
}

#[test]
fn current_surface_leaves_both_bodies_alone() {
    let answer = exchange("/rms/api/v2/beam", None, b"{\"beamId\":3}");
    assert_eq!(
        String::from_utf8(answer).unwrap(),
        "{\"content_type\":\"\",\"received_body\":\"{\\\"beamId\\\":3}\"}"
    );
}
