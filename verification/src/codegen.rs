//! Generating the Rust code of a service from its description.
use vstd::prelude::*;
use vstd::string::{StrSliceExecFns, StringExecFns};

verus! {

/// A service method.
#[derive(Debug)]
pub struct Method {
    /// The name of the method in Rust.
    pub name: String,
    /// The name of the method in its `.proto` file.
    pub proto_name: String,
    /// The Rust type of its input.
    pub input_type: String,
    /// The Rust type of its output.
    pub output_type: String,
}

/// A service.
#[derive(Debug)]
pub struct Service {
    /// The name of the service in Rust.
    pub name: String,
    /// The package that the service belongs to.
    pub package: String,
    /// The methods of the service.
    pub methods: Vec<Method>,
}

/// The mathematical content of a [`Method`].
#[verifier::ext_equal]
pub struct MethodView {
    pub name: Seq<char>,
    pub proto_name: Seq<char>,
    pub input_type: Seq<char>,
    pub output_type: Seq<char>,
}

/// The mathematical content of a [`Service`].
#[verifier::ext_equal]
pub struct ServiceView {
    pub name: Seq<char>,
    pub package: Seq<char>,
    pub methods: Seq<MethodView>,
}

impl View for Method {
    type V = MethodView;

    open spec fn view(&self) -> MethodView {
        MethodView {
            name: self.name@,
            proto_name: self.proto_name@,
            input_type: self.input_type@,
            output_type: self.output_type@,
        }
    }
}

impl View for Service {
    type V = ServiceView;

    open spec fn view(&self) -> ServiceView {
        ServiceView {
            name: self.name@,
            package: self.package@,
            methods: methods_view(self.methods@),
        }
    }
}

/// Whether the letters `Api` stand in a name at the given place.
pub open spec fn api_at(name: Seq<char>, place: int) -> bool {
    0 <= place && place + 3 <= name.len() && name[place] == 'A' && name[place + 1] == 'p'
        && name[place + 2] == 'i'
}

/// A name with every `Api` in it written `API`.
pub open spec fn api_in_capitals(name: Seq<char>) -> Seq<char> {
    Seq::new(
        name.len(),
        |i: int|
            if api_at(name, i - 1) {
                'P'
            } else if api_at(name, i - 2) {
                'I'
            } else {
                name[i]
            },
    )
}

/// The declaration of a method in the trait of its service.
pub open spec fn declaration(method: MethodView) -> Seq<char> {
    "    async fn "@ + method.name + "(&self, req: twirp::server::Request<"@ + method.input_type
        + ">) -> Result<twirp::server::Response<"@ + method.output_type
        + ">, twirp::TwirpErrorResponse>;\n"@
}

/// The declarations of some methods.
pub open spec fn declarations(methods: Seq<MethodView>) -> Seq<char>
    decreases methods.len(),
{
    if methods.len() == 0 {
        Seq::empty()
    } else {
        declarations(methods.drop_last()) + declaration(methods.last())
    }
}

/// The path of a method below that of its service.
pub open spec fn method_path(method: MethodView) -> Seq<char> {
    "/"@ + method.proto_name
}

/// The code that adds the route of a method to a router under construction.
pub open spec fn route(method: MethodView) -> Seq<char> {
    "        .route(\n            \""@ + method_path(method)
        + "\",\n            |api: std::sync::Arc<T>, req: twirp::server::Request<"@
        + method.input_type + ">| async move { api."@ + method.name + "(req).await },\n        )\n"@
}

/// The code that adds the routes of some methods to a router under construction.
pub open spec fn routes(methods: Seq<MethodView>) -> Seq<char>
    decreases methods.len(),
{
    if methods.len() == 0 {
        Seq::empty()
    } else {
        routes(methods.drop_last()) + route(methods.last())
    }
}

/// What a method is called with by a client, and what the client gets back.
pub open spec fn client_signature(method: MethodView) -> Seq<char> {
    "    async fn "@ + method.name + "(&self, req: "@ + method.input_type + ") -> Result<"@
        + method.output_type + ", twirp::ClientError>"@
}

/// The declarations of some methods in the trait of the service's client.
pub open spec fn client_declarations(methods: Seq<MethodView>) -> Seq<char>
    decreases methods.len(),
{
    if methods.len() == 0 {
        Seq::empty()
    } else {
        client_declarations(methods.drop_last()) + client_signature(methods.last()) + ";\n"@
    }
}

/// The path at which a client calls a method, below the address that it was given.
pub open spec fn client_path(service_fqn: Seq<char>, method: MethodView) -> Seq<char> {
    service_fqn + "/"@ + method.proto_name
}

/// The code by which a client calls a method.
pub open spec fn client_method(service_fqn: Seq<char>, method: MethodView) -> Seq<char> {
    client_signature(method) + " {\n        self.request(\""@ + client_path(service_fqn, method)
        + "\", req).await\n    }\n"@
}

/// The code by which a client calls some methods.
pub open spec fn client_methods(service_fqn: Seq<char>, methods: Seq<MethodView>) -> Seq<char>
    decreases methods.len(),
{
    if methods.len() == 0 {
        Seq::empty()
    } else {
        client_methods(service_fqn, methods.drop_last()) + client_method(
            service_fqn,
            methods.last(),
        )
    }
}

impl ServiceView {
    /// The full name of the service: its package, and its name with every `Api` written `API`.
    pub open spec fn fqn(self) -> Seq<char> {
        self.package + "."@ + api_in_capitals(self.name)
    }

    /// The path below which the methods of the service are found.
    pub open spec fn path(self) -> Seq<char> {
        "/"@ + self.fqn()
    }

    /// The code of the constant that holds the path of the service.
    pub open spec fn fqn_code(self) -> Seq<char> {
        "\npub const SERVICE_FQN: &str = \""@ + self.path() + "\";\n"@
    }

    /// The code of the service's trait, which declares its methods in order.
    pub open spec fn trait_code(self) -> Seq<char> {
        "#[twirp::async_trait::async_trait]\npub trait "@ + self.name + " {\n"@ + declarations(
            self.methods,
        ) + "}\n"@
    }

    /// The code of the function that makes the router of the service, with a route for each
    /// method in order.
    pub open spec fn router_code(self) -> Seq<char> {
        "pub fn router<T>(api: std::sync::Arc<T>) -> twirp::Router\nwhere\n    T: "@ + self.name
            + " + Send + Sync + 'static,\n{\n    twirp::details::TwirpRouterBuilder::new(api)\n"@
            + routes(self.methods) + "        .build()\n}\n"@
    }

    /// The code of the trait of the service's client, and of its impl for the Twirp client.
    pub open spec fn client_code(self) -> Seq<char> {
        "#[twirp::async_trait::async_trait]\npub trait "@ + self.name + "Client {\n"@
            + client_declarations(self.methods)
            + "}\n#[twirp::async_trait::async_trait]\nimpl "@ + self.name
            + "Client for twirp::client::Client {\n"@ + client_methods(self.fqn(), self.methods)
            + "}\n"@
    }
}

/// The mathematical content of some methods.
pub open spec fn methods_view(methods: Seq<Method>) -> Seq<MethodView> {
    Seq::new(methods.len(), |i: int| methods[i]@)
}

/// Writes every `Api` in a name `API`.
fn capitalize_api(name: &str) -> (capitalized: String)
    ensures
        capitalized@ == api_in_capitals(name@),
{
    let mut capitalized = String::new();
    let length: usize = name.unicode_len();
    let mut i: usize = 0;
    while i < length
        invariant
            i <= length,
            length == name@.len(),
            capitalized@ == api_in_capitals(name@).take(i as int),
        decreases length - i,
    {
        if i >= 1 && is_api_at(name, i - 1) {
            capitalized.append("P");
        } else if i >= 2 && is_api_at(name, i - 2) {
            capitalized.append("I");
        } else {
            capitalized.append(name.substring_char(i, i + 1));
        }
        proof {
            reveal_strlit("P");
            reveal_strlit("I");
            assert(capitalized@ == api_in_capitals(name@).take(i + 1));
        }
        i = i + 1;
    }
    capitalized
}

/// Whether the letters `Api` stand in a name at the given place.
fn is_api_at(name: &str, place: usize) -> (found: bool)
    requires
        place < name@.len(),
    ensures
        found == api_at(name@, place as int),
{
    let length: usize = name.unicode_len();
    length - place >= 3 && name.get_char(place) == 'A' && name.get_char(place + 1) == 'p'
        && name.get_char(place + 2) == 'i'
}

/// Appends the declarations of some methods in the trait of their service.
fn append_declarations(methods: &Vec<Method>, buf: &mut String)
    ensures
        final(buf)@ == old(buf)@ + declarations(methods_view(methods@)),
{
    let ghost all = methods_view(methods@);
    let mut i: usize = 0;
    assert(buf@ == old(buf)@ + declarations(all.take(0)));
    while i < methods.len()
        invariant
            i <= methods.len(),
            all == methods_view(methods@),
            buf@ == old(buf)@ + declarations(all.take(i as int)),
        decreases methods.len() - i,
    {
        let m = &methods[i];
        let ghost before = buf@;
        buf.append("    async fn ");
        buf.append(m.name.as_str());
        buf.append("(&self, req: twirp::server::Request<");
        buf.append(m.input_type.as_str());
        buf.append(">) -> Result<twirp::server::Response<");
        buf.append(m.output_type.as_str());
        buf.append(">, twirp::TwirpErrorResponse>;\n");
        proof {
            assert(all.take(i + 1).drop_last() == all.take(i as int));
            assert(all.take(i + 1).last() == m@);
            assert(buf@ == before + declaration(m@));
            assert(buf@ == old(buf)@ + declarations(all.take(i + 1)));
        }
        i = i + 1;
    }
    assert(all.take(i as int) == all);
}

/// Appends the routes of some methods.
fn append_routes(methods: &Vec<Method>, buf: &mut String)
    ensures
        final(buf)@ == old(buf)@ + routes(methods_view(methods@)),
{
    let ghost all = methods_view(methods@);
    let mut i: usize = 0;
    assert(buf@ == old(buf)@ + routes(all.take(0)));
    while i < methods.len()
        invariant
            i <= methods.len(),
            all == methods_view(methods@),
            buf@ == old(buf)@ + routes(all.take(i as int)),
        decreases methods.len() - i,
    {
        let m = &methods[i];
        let ghost before = buf@;
        buf.append("        .route(\n            \"");
        buf.append("/");
        buf.append(m.proto_name.as_str());
        buf.append("\",\n            |api: std::sync::Arc<T>, req: twirp::server::Request<");
        buf.append(m.input_type.as_str());
        buf.append(">| async move { api.");
        buf.append(m.name.as_str());
        buf.append("(req).await },\n        )\n");
        proof {
            assert(all.take(i + 1).drop_last() == all.take(i as int));
            assert(all.take(i + 1).last() == m@);
            assert(buf@ == before + route(m@));
            assert(buf@ == old(buf)@ + routes(all.take(i + 1)));
        }
        i = i + 1;
    }
    assert(all.take(i as int) == all);
}

/// Appends what a method is called with by a client, and what the client gets back.
fn append_client_signature(m: &Method, buf: &mut String)
    ensures
        final(buf)@ == old(buf)@ + client_signature(m@),
{
    buf.append("    async fn ");
    buf.append(m.name.as_str());
    buf.append("(&self, req: ");
    buf.append(m.input_type.as_str());
    buf.append(") -> Result<");
    buf.append(m.output_type.as_str());
    buf.append(", twirp::ClientError>");
    assert(buf@ == old(buf)@ + client_signature(m@));
}

/// Appends the declarations of some methods in the trait of their service's client.
fn append_client_declarations(methods: &Vec<Method>, buf: &mut String)
    ensures
        final(buf)@ == old(buf)@ + client_declarations(methods_view(methods@)),
{
    let ghost all = methods_view(methods@);
    let mut i: usize = 0;
    assert(buf@ == old(buf)@ + client_declarations(all.take(0)));
    while i < methods.len()
        invariant
            i <= methods.len(),
            all == methods_view(methods@),
            buf@ == old(buf)@ + client_declarations(all.take(i as int)),
        decreases methods.len() - i,
    {
        let m = &methods[i];
        let ghost before = buf@;
        append_client_signature(m, buf);
        buf.append(";\n");
        proof {
            assert(all.take(i + 1).drop_last() == all.take(i as int));
            assert(all.take(i + 1).last() == m@);
            assert(buf@ == before + client_signature(m@) + ";\n"@);
            assert(buf@ == old(buf)@ + client_declarations(all.take(i + 1)));
        }
        i = i + 1;
    }
    assert(all.take(i as int) == all);
}

/// Appends the code by which a client calls some methods.
fn append_client_methods(service_fqn: &str, methods: &Vec<Method>, buf: &mut String)
    ensures
        final(buf)@ == old(buf)@ + client_methods(service_fqn@, methods_view(methods@)),
{
    let ghost all = methods_view(methods@);
    let mut i: usize = 0;
    assert(buf@ == old(buf)@ + client_methods(service_fqn@, all.take(0)));
    while i < methods.len()
        invariant
            i <= methods.len(),
            all == methods_view(methods@),
            buf@ == old(buf)@ + client_methods(service_fqn@, all.take(i as int)),
        decreases methods.len() - i,
    {
        let m = &methods[i];
        let ghost before = buf@;
        append_client_signature(m, buf);
        buf.append(" {\n        self.request(\"");
        buf.append(service_fqn);
        buf.append("/");
        buf.append(m.proto_name.as_str());
        buf.append("\", req).await\n    }\n");
        proof {
            assert(all.take(i + 1).drop_last() == all.take(i as int));
            assert(all.take(i + 1).last() == m@);
            assert(buf@ == before + client_method(service_fqn@, m@));
            assert(buf@ == old(buf)@ + client_methods(service_fqn@, all.take(i + 1)));
        }
        i = i + 1;
    }
    assert(all.take(i as int) == all);
}

/// The generator of a service's code.
pub fn service_generator() -> (generator: Box<ServiceGenerator>)
    ensures
        *generator == ServiceGenerator,
{
    Box::new(ServiceGenerator)
}

/// Generates the trait of a service, the function that makes its router, and its client.
#[derive(Debug)]
pub struct ServiceGenerator;

impl ServiceGenerator {
    /// Appends the code of a service to a buffer.
    pub fn generate(&mut self, service: Service, buf: &mut String)
        ensures
            final(buf)@ == old(buf)@ + service@.fqn_code() + service@.trait_code()
                + service@.router_code() + service@.client_code(),
            *final(self) == *old(self),
    {
        let mut service_fqn = service.package.clone();
        service_fqn.append(".");
        service_fqn.append(capitalize_api(service.name.as_str()).as_str());
        let ghost start = buf@;

        buf.append("\npub const SERVICE_FQN: &str = \"");
        buf.append("/");
        buf.append(service_fqn.as_str());
        buf.append("\";\n");
        assert(buf@ == start + service@.fqn_code());
        let ghost start = buf@;

        buf.append("#[twirp::async_trait::async_trait]\npub trait ");
        buf.append(service.name.as_str());
        buf.append(" {\n");
        append_declarations(&service.methods, buf);
        buf.append("}\n");
        assert(buf@ == start + service@.trait_code());
        let ghost start = buf@;

        buf.append("pub fn router<T>(api: std::sync::Arc<T>) -> twirp::Router\nwhere\n    T: ");
        buf.append(service.name.as_str());
        buf.append(
            " + Send + Sync + 'static,\n{\n    twirp::details::TwirpRouterBuilder::new(api)\n",
        );
        append_routes(&service.methods, buf);
        buf.append("        .build()\n}\n");
        assert(buf@ == start + service@.router_code());
        let ghost start = buf@;

        buf.append("#[twirp::async_trait::async_trait]\npub trait ");
        buf.append(service.name.as_str());
        buf.append("Client {\n");
        append_client_declarations(&service.methods, buf);
        buf.append("}\n#[twirp::async_trait::async_trait]\nimpl ");
        buf.append(service.name.as_str());
        buf.append("Client for twirp::client::Client {\n");
        append_client_methods(service_fqn.as_str(), &service.methods, buf);
        buf.append("}\n");
        assert(buf@ == start + service@.client_code());
    }
}

/// The respelled name of a service nowhere says `Api`, and respelling it once more leaves it as
/// it is.
pub proof fn lemma_no_api_is_left(name: Seq<char>)
    ensures
        forall|i: int| !#[trigger] api_at(api_in_capitals(name), i),
        api_in_capitals(api_in_capitals(name)) == api_in_capitals(name),
{
    let capitalized = api_in_capitals(name);
    assert forall|i: int| !#[trigger] api_at(capitalized, i) by {
        if api_at(capitalized, i) {
            assert(capitalized[i + 1] == 'p');
            assert(name[i] == 'A' && name[i + 1] == 'p' && name[i + 2] == 'i');
            assert(api_at(name, i));
            assert(api_at(name, (i + 1) - 1));
        }
    }
    assert(api_in_capitals(capitalized) =~= capitalized);
}

/// The declarations of two lists of methods follow each other.
proof fn lemma_declarations_in_order(first: Seq<MethodView>, second: Seq<MethodView>)
    ensures
        declarations(first + second) == declarations(first) + declarations(second),
    decreases second.len(),
{
    if second.len() == 0 {
        assert(first + second == first);
        assert(declarations(first) + declarations(second) == declarations(first));
    } else {
        lemma_declarations_in_order(first, second.drop_last());
        assert((first + second).drop_last() == first + second.drop_last());
        assert((first + second).last() == second.last());
        assert(declarations(first + second) == declarations(first) + declarations(second));
    }
}

/// The routes of two lists of methods follow each other.
proof fn lemma_routes_in_order(first: Seq<MethodView>, second: Seq<MethodView>)
    ensures
        routes(first + second) == routes(first) + routes(second),
    decreases second.len(),
{
    if second.len() == 0 {
        assert(first + second == first);
        assert(routes(first) + routes(second) == routes(first));
    } else {
        lemma_routes_in_order(first, second.drop_last());
        assert((first + second).drop_last() == first + second.drop_last());
        assert((first + second).last() == second.last());
        assert(routes(first + second) == routes(first) + routes(second));
    }
}

/// The client's declarations of two lists of methods follow each other.
proof fn lemma_client_declarations_in_order(first: Seq<MethodView>, second: Seq<MethodView>)
    ensures
        client_declarations(first + second) == client_declarations(first) + client_declarations(
            second,
        ),
    decreases second.len(),
{
    if second.len() == 0 {
        assert(first + second == first);
        assert(client_declarations(first) + client_declarations(second) == client_declarations(
            first,
        ));
    } else {
        lemma_client_declarations_in_order(first, second.drop_last());
        assert((first + second).drop_last() == first + second.drop_last());
        assert((first + second).last() == second.last());
        assert(client_declarations(first + second) == client_declarations(first)
            + client_declarations(second));
    }
}

/// The client's methods for two lists of methods follow each other.
proof fn lemma_client_methods_in_order(
    service_fqn: Seq<char>,
    first: Seq<MethodView>,
    second: Seq<MethodView>,
)
    ensures
        client_methods(service_fqn, first + second) == client_methods(service_fqn, first)
            + client_methods(service_fqn, second),
    decreases second.len(),
{
    if second.len() == 0 {
        assert(first + second == first);
        assert(client_methods(service_fqn, first) + client_methods(service_fqn, second)
            == client_methods(service_fqn, first));
    } else {
        lemma_client_methods_in_order(service_fqn, first, second.drop_last());
        assert((first + second).drop_last() == first + second.drop_last());
        assert((first + second).last() == second.last());
        assert(client_methods(service_fqn, first + second) == client_methods(service_fqn, first)
            + client_methods(service_fqn, second));
    }
}

/// Every method is declared once, routed once and called by one method of the client, in the
/// order of the service: the code for the methods of two lists is the code for the first followed
/// by that for the second.
pub proof fn lemma_methods_in_order(
    service_fqn: Seq<char>,
    first: Seq<MethodView>,
    second: Seq<MethodView>,
)
    ensures
        declarations(first + second) == declarations(first) + declarations(second),
        routes(first + second) == routes(first) + routes(second),
        client_declarations(first + second) == client_declarations(first) + client_declarations(
            second,
        ),
        client_methods(service_fqn, first + second) == client_methods(service_fqn, first)
            + client_methods(service_fqn, second),
{
    lemma_declarations_in_order(first, second);
    lemma_routes_in_order(first, second);
    lemma_client_declarations_in_order(first, second);
    lemma_client_methods_in_order(service_fqn, first, second);
}

/// A client calls a method where its route is: the path that it calls is that of the method
/// below that of the service.
pub proof fn lemma_client_meets_the_route(service: ServiceView, method: MethodView)
    ensures
        "/"@ + client_path(service.fqn(), method) == service.path() + method_path(method),
{
    assert("/"@ + client_path(service.fqn(), method) =~= service.path() + method_path(method));
}

/// The code for some methods, each written by itself, one behind the other.
proof fn lemma_code_is_flat(
    service_fqn: Seq<char>,
    methods: Seq<MethodView>,
    declared: Seq<Seq<char>>,
    routed: Seq<Seq<char>>,
    client_declared: Seq<Seq<char>>,
    client_called: Seq<Seq<char>>,
)
    requires
        declared.len() == methods.len(),
        routed.len() == methods.len(),
        client_declared.len() == methods.len(),
        client_called.len() == methods.len(),
        forall|i: int|
            0 <= i < methods.len() ==> {
                &&& declared[i] == declaration(#[trigger] methods[i])
                &&& routed[i] == route(methods[i])
                &&& client_declared[i] == client_signature(methods[i]) + ";\n"@
                &&& client_called[i] == client_method(service_fqn, methods[i])
            },
    ensures
        declarations(methods) == declared.flatten(),
        routes(methods) == routed.flatten(),
        client_declarations(methods) == client_declared.flatten(),
        client_methods(service_fqn, methods) == client_called.flatten(),
    decreases methods.len(),
{
    declared.lemma_flatten_and_flatten_alt_are_equivalent();
    routed.lemma_flatten_and_flatten_alt_are_equivalent();
    client_declared.lemma_flatten_and_flatten_alt_are_equivalent();
    client_called.lemma_flatten_and_flatten_alt_are_equivalent();
    if methods.len() > 0 {
        let rest = methods.drop_last();
        assert forall|i: int| 0 <= i < rest.len() implies {
            &&& declared.drop_last()[i] == declaration(#[trigger] rest[i])
            &&& routed.drop_last()[i] == route(rest[i])
            &&& client_declared.drop_last()[i] == client_signature(rest[i]) + ";\n"@
            &&& client_called.drop_last()[i] == client_method(service_fqn, rest[i])
        } by {
            assert(rest[i] == methods[i]);
        }
        lemma_code_is_flat(
            service_fqn,
            rest,
            declared.drop_last(),
            routed.drop_last(),
            client_declared.drop_last(),
            client_called.drop_last(),
        );
        declared.drop_last().lemma_flatten_and_flatten_alt_are_equivalent();
        routed.drop_last().lemma_flatten_and_flatten_alt_are_equivalent();
        client_declared.drop_last().lemma_flatten_and_flatten_alt_are_equivalent();
        client_called.drop_last().lemma_flatten_and_flatten_alt_are_equivalent();
        assert(methods.last() == methods[methods.len() - 1]);
        assert(client_declarations(methods) =~= client_declarations(rest) + (client_signature(
            methods.last(),
        ) + ";\n"@));
    }
}

/// The trait of a service declares every method of the service, in order, from its input to its
/// output, and nothing else.
pub proof fn lemma_trait_declares_every_method(service: Service)
    ensures
        service@.trait_code() == "#[twirp::async_trait::async_trait]\npub trait "@ + service.name@
            + " {\n"@ + Seq::new(
            service.methods@.len(),
            |i: int|
                "    async fn "@ + service.methods@[i].name@
                    + "(&self, req: twirp::server::Request<"@ + service.methods@[i].input_type@
                    + ">) -> Result<twirp::server::Response<"@ + service.methods@[i].output_type@
                    + ">, twirp::TwirpErrorResponse>;\n"@,
        ).flatten() + "}\n"@,
{
    let methods = service@.methods;
    let declared = Seq::new(
        service.methods@.len(),
        |i: int|
            "    async fn "@ + service.methods@[i].name@ + "(&self, req: twirp::server::Request<"@
                + service.methods@[i].input_type@ + ">) -> Result<twirp::server::Response<"@
                + service.methods@[i].output_type@ + ">, twirp::TwirpErrorResponse>;\n"@,
    );
    lemma_code_is_flat(
        service@.fqn(),
        methods,
        declared,
        Seq::new(methods.len(), |i: int| route(methods[i])),
        Seq::new(methods.len(), |i: int| client_signature(methods[i]) + ";\n"@),
        Seq::new(methods.len(), |i: int| client_method(service@.fqn(), methods[i])),
    );
}

/// The router of a service has a route for every method of the service, in order, and no other:
/// the path with the method's name in its `.proto` file leads to the method with its name in Rust.
pub proof fn lemma_router_routes_every_method(service: Service)
    ensures
        service@.router_code()
            == "pub fn router<T>(api: std::sync::Arc<T>) -> twirp::Router\nwhere\n    T: "@
            + service.name@
            + " + Send + Sync + 'static,\n{\n    twirp::details::TwirpRouterBuilder::new(api)\n"@
            + Seq::new(
            service.methods@.len(),
            |i: int|
                "        .route(\n            \""@ + ("/"@ + service.methods@[i].proto_name@)
                    + "\",\n            |api: std::sync::Arc<T>, req: twirp::server::Request<"@
                    + service.methods@[i].input_type@ + ">| async move { api."@
                    + service.methods@[i].name@ + "(req).await },\n        )\n"@,
        ).flatten() + "        .build()\n}\n"@,
{
    let methods = service@.methods;
    let routed = Seq::new(
        service.methods@.len(),
        |i: int|
            "        .route(\n            \""@ + ("/"@ + service.methods@[i].proto_name@)
                + "\",\n            |api: std::sync::Arc<T>, req: twirp::server::Request<"@
                + service.methods@[i].input_type@ + ">| async move { api."@
                + service.methods@[i].name@ + "(req).await },\n        )\n"@,
    );
    lemma_code_is_flat(
        service@.fqn(),
        methods,
        Seq::new(methods.len(), |i: int| declaration(methods[i])),
        routed,
        Seq::new(methods.len(), |i: int| client_signature(methods[i]) + ";\n"@),
        Seq::new(methods.len(), |i: int| client_method(service@.fqn(), methods[i])),
    );
}

/// The client of a service declares every method of the service and calls it where the router has
/// its route, in order, and does nothing else.
pub proof fn lemma_client_calls_every_method(service: Service)
    ensures
        service@.client_code() == "#[twirp::async_trait::async_trait]\npub trait "@ + service.name@
            + "Client {\n"@ + Seq::new(
            service.methods@.len(),
            |i: int|
                "    async fn "@ + service.methods@[i].name@ + "(&self, req: "@
                    + service.methods@[i].input_type@ + ") -> Result<"@
                    + service.methods@[i].output_type@ + ", twirp::ClientError>"@ + ";\n"@,
        ).flatten() + "}\n#[twirp::async_trait::async_trait]\nimpl "@ + service.name@
            + "Client for twirp::client::Client {\n"@ + Seq::new(
            service.methods@.len(),
            |i: int|
                "    async fn "@ + service.methods@[i].name@ + "(&self, req: "@
                    + service.methods@[i].input_type@ + ") -> Result<"@
                    + service.methods@[i].output_type@ + ", twirp::ClientError>"@
                    + " {\n        self.request(\""@ + (service.package@ + "."@ + api_in_capitals(
                    service.name@,
                ) + "/"@ + service.methods@[i].proto_name@) + "\", req).await\n    }\n"@,
        ).flatten() + "}\n"@,
{
    let methods = service@.methods;
    let declared = Seq::new(
        service.methods@.len(),
        |i: int|
            "    async fn "@ + service.methods@[i].name@ + "(&self, req: "@
                + service.methods@[i].input_type@ + ") -> Result<"@
                + service.methods@[i].output_type@ + ", twirp::ClientError>"@ + ";\n"@,
    );
    let called = Seq::new(
        service.methods@.len(),
        |i: int|
            "    async fn "@ + service.methods@[i].name@ + "(&self, req: "@
                + service.methods@[i].input_type@ + ") -> Result<"@
                + service.methods@[i].output_type@ + ", twirp::ClientError>"@
                + " {\n        self.request(\""@ + (service.package@ + "."@ + api_in_capitals(
                service.name@,
            ) + "/"@ + service.methods@[i].proto_name@) + "\", req).await\n    }\n"@,
    );
    lemma_code_is_flat(
        service@.fqn(),
        methods,
        Seq::new(methods.len(), |i: int| declaration(methods[i])),
        Seq::new(methods.len(), |i: int| route(methods[i])),
        declared,
        called,
    );
}

/// The constant that is generated holds the path of the service: its package and its name, with
/// every `Api` in the name written `API`.
pub proof fn lemma_constant_holds_the_path(service: Service)
    ensures
        service@.fqn_code() == "\npub const SERVICE_FQN: &str = \""@ + ("/"@ + (service.package@
            + "."@ + api_in_capitals(service.name@))) + "\";\n"@,
{
}

/// A name that nowhere says `Api` stays as it is, and one that says `Api` somewhere says `API`
/// there, while what comes before and behind is respelled by itself.
pub proof fn lemma_api_is_respelled(before: Seq<char>, after: Seq<char>)
    ensures
        (forall|i: int|
            0 <= i <= before.len() - 3 ==> #[trigger] before.subrange(i, i + 3) != seq![
                'A',
                'p',
                'i',
            ]) ==> api_in_capitals(before) == before,
        api_in_capitals(before + seq!['A', 'p', 'i'] + after) == api_in_capitals(before) + seq![
            'A',
            'P',
            'I',
        ] + api_in_capitals(after),
{
    if forall|i: int|
        0 <= i <= before.len() - 3 ==> #[trigger] before.subrange(i, i + 3) != seq!['A', 'p', 'i'] {
        assert forall|i: int| !#[trigger] api_at(before, i) by {
            if api_at(before, i) {
                assert(before.subrange(i, i + 3) =~= seq!['A', 'p', 'i']);
            }
        }
        assert(api_in_capitals(before) =~= before);
    }
    let name = before + seq!['A', 'p', 'i'] + after;
    let n = before.len() as int;
    assert(name[n] == 'A' && name[n + 1] == 'p' && name[n + 2] == 'i');
    assert forall|i: int| #[trigger]
        api_at(name, i) == (api_at(before, i) || i == n || api_at(after, i - n - 3)) by {
        if 0 <= i && i + 3 <= n {
            assert(name[i] == before[i] && name[i + 1] == before[i + 1] && name[i + 2] == before[i
                + 2]);
        }
        if i >= n + 3 && i + 3 <= name.len() {
            assert(name[i] == after[i - n - 3]);
            assert(name[i + 1] == after[i - n - 2]);
            assert(name[i + 2] == after[i - n - 1]);
        }
    }
    let respelled = api_in_capitals(before) + seq!['A', 'P', 'I'] + api_in_capitals(after);
    assert forall|i: int| 0 <= i < name.len() implies api_in_capitals(name)[i] == respelled[i] by {
        assert(api_at(name, i - 1) == (api_at(before, i - 1) || i - 1 == n || api_at(
            after,
            i - 1 - n - 3,
        )));
        assert(api_at(name, i - 2) == (api_at(before, i - 2) || i - 2 == n || api_at(
            after,
            i - 2 - n - 3,
        )));
        if i < n {
            assert(respelled[i] == api_in_capitals(before)[i]);
            assert(name[i] == before[i]);
        } else if i >= n + 3 {
            assert(respelled[i] == api_in_capitals(after)[i - n - 3]);
            assert(name[i] == after[i - n - 3]);
        }
    }
    assert(api_in_capitals(name) =~= respelled);
}

} // verus!
