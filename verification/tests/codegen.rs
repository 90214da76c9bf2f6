use twirp::codegen::{Method, Service};
use twirp::service_generator;

fn method(name: &str, proto_name: &str, input_type: &str, output_type: &str) -> Method {
    Method {
        name: name.to_string(),
        proto_name: proto_name.to_string(),
        input_type: input_type.to_string(),
        output_type: output_type.to_string(),
    }
}

fn generate(name: &str, methods: Vec<Method>, before: &str) -> String {
    let mut buf = before.to_string();
    service_generator().generate(
        Service {
            name: name.to_string(),
            package: "service.haberdash.v1".to_string(),
            methods,
        },
        &mut buf,
    );
    buf
}

#[test]
fn a_service_becomes_a_trait_a_router_and_a_client() {
    let code = generate(
        "HaberdasherApi",
        vec![
            method("make_hat", "MakeHat", "MakeHatRequest", "MakeHatResponse"),
            method("get_status", "GetStatus", "GetStatusRequest", "GetStatusResponse"),
        ],
        "// before\n",
    );
    let expected = r#"// before

pub const SERVICE_FQN: &str = "/service.haberdash.v1.HaberdasherAPI";
#[twirp::async_trait::async_trait]
pub trait HaberdasherApi {
    async fn make_hat(&self, req: twirp::server::Request<MakeHatRequest>) -> Result<twirp::server::Response<MakeHatResponse>, twirp::TwirpErrorResponse>;
    async fn get_status(&self, req: twirp::server::Request<GetStatusRequest>) -> Result<twirp::server::Response<GetStatusResponse>, twirp::TwirpErrorResponse>;
}
pub fn router<T>(api: std::sync::Arc<T>) -> twirp::Router
where
    T: HaberdasherApi + Send + Sync + 'static,
{
    twirp::details::TwirpRouterBuilder::new(api)
        .route(
            "/MakeHat",
            |api: std::sync::Arc<T>, req: twirp::server::Request<MakeHatRequest>| async move { api.make_hat(req).await },
        )
        .route(
            "/GetStatus",
            |api: std::sync::Arc<T>, req: twirp::server::Request<GetStatusRequest>| async move { api.get_status(req).await },
        )
        .build()
}
#[twirp::async_trait::async_trait]
pub trait HaberdasherApiClient {
    async fn make_hat(&self, req: MakeHatRequest) -> Result<MakeHatResponse, twirp::ClientError>;
    async fn get_status(&self, req: GetStatusRequest) -> Result<GetStatusResponse, twirp::ClientError>;
}
#[twirp::async_trait::async_trait]
impl HaberdasherApiClient for twirp::client::Client {
    async fn make_hat(&self, req: MakeHatRequest) -> Result<MakeHatResponse, twirp::ClientError> {
        self.request("service.haberdash.v1.HaberdasherAPI/MakeHat", req).await
    }
    async fn get_status(&self, req: GetStatusRequest) -> Result<GetStatusResponse, twirp::ClientError> {
        self.request("service.haberdash.v1.HaberdasherAPI/GetStatus", req).await
    }
}
"#;
    assert_eq!(code, expected);
}

#[test]
fn a_service_without_methods_is_empty() {
    let code = generate("Plain", vec![], "");
    let expected = r#"
pub const SERVICE_FQN: &str = "/service.haberdash.v1.Plain";
#[twirp::async_trait::async_trait]
pub trait Plain {
}
pub fn router<T>(api: std::sync::Arc<T>) -> twirp::Router
where
    T: Plain + Send + Sync + 'static,
{
    twirp::details::TwirpRouterBuilder::new(api)
        .build()
}
#[twirp::async_trait::async_trait]
pub trait PlainClient {
}
#[twirp::async_trait::async_trait]
impl PlainClient for twirp::client::Client {
}
"#;
    assert_eq!(code, expected);
}

#[test]
fn every_api_in_the_full_name_is_put_in_capitals() {
    for name in ["Api", "ApiApi", "AApipi", "Apiary", "TestApiServer", "api", "Ap", "", "API", "ÄApiß"] {
        let code = generate(name, vec![], "");
        let respelled = name.replace("Api", "API");
        let constant = format!(
            "pub const SERVICE_FQN: &str = \"/service.haberdash.v1.{}\";\n",
            respelled
        );
        assert!(code.contains(&constant), "{}", code);
        assert!(generate(&respelled, vec![], "").contains(&constant));
        assert!(code.contains(&format!("pub trait {} {{\n", name)), "{}", code);
        assert!(code.contains(&format!("pub trait {}Client {{\n", name)), "{}", code);
    }
}

#[test]
fn a_client_calls_a_method_where_its_route_is() {
    let code = generate("EchoApi", vec![method("say", "Say", "A", "B")], "");
    assert!(code.contains("SERVICE_FQN: &str = \"/service.haberdash.v1.EchoAPI\""));
    assert!(code.contains("            \"/Say\",\n"));
    assert!(code.contains("self.request(\"service.haberdash.v1.EchoAPI/Say\", req)"));
}
