//! Middleware around the request handlers.
use vstd::prelude::*;

pub mod logger;
pub mod text;

verus! {

/// A layer of middleware.
#[derive(Clone, Copy, PartialEq, Eq, Structural, Debug)]
pub enum LayerKind {
    /// Logs the requests.
    Logger,
    /// Counts the open connections.
    ConnectionCounter,
    /// Sets the `Server` header of every response.
    DefaultHeaders,
}

/// The layers of middleware, from the innermost to the outermost.
pub fn register_layer(server_header: bool) -> (r: Vec<LayerKind>)
    ensures
        r@ == if server_header {
            seq![LayerKind::Logger, LayerKind::ConnectionCounter, LayerKind::DefaultHeaders]
        } else {
            seq![LayerKind::Logger, LayerKind::ConnectionCounter]
        },
{
    let mut layers: Vec<LayerKind> = Vec::new();
    layers.push(LayerKind::Logger);
    layers.push(LayerKind::ConnectionCounter);
    if server_header {
        layers.push(LayerKind::DefaultHeaders);
    }
    assert(layers@ =~= if server_header {
        seq![LayerKind::Logger, LayerKind::ConnectionCounter, LayerKind::DefaultHeaders]
    } else {
        seq![LayerKind::Logger, LayerKind::ConnectionCounter]
    });
    layers
}

/// The value of the `Server` header for a client of this version.
pub fn server_header(client_version: &str) -> (r: String)
    ensures
        r@ == "Genetic Lifeform and Distributed Open Server "@ + client_version@,
{
    let mut value = "Genetic Lifeform and Distributed Open Server ".to_owned();
    value.append(client_version);
    value
}

} // verus!
