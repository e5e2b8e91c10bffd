//! Negotiating algorithms.

use vstd::prelude::*;

use crate::error::ProtoError;
use crate::key_exchange::{first_common_is_preferred, first_key_exchange_is_preferred};
use crate::key_exchange::{KeyExchangeInitView, Negotiated};
use crate::named::{ExtensionIdView, KeyExchangeAlgorithmOrExtensionIdView};

verus! {

/// Whatever is negotiated is what the client would rather have than anything else that the server
/// has as well: for each category it is in the lists of both sides, and nothing that stands before
/// it in the client's list is in the server's
/// (<https://www.rfc-editor.org/rfc/rfc4253#section-7.1>).
pub proof fn client_preferences_decide(client: KeyExchangeInitView, server: KeyExchangeInitView)
    ensures
        Negotiated::agreed(client, server) matches Ok(negotiated) ==> {
            &&& server.key_exchange_algorithms.contains(
                KeyExchangeAlgorithmOrExtensionIdView::KeyExchange(negotiated.key_exchange),
            )
            &&& exists|i: int|
                {
                    &&& 0 <= i < client.key_exchange_algorithms.len()
                    &&& #[trigger] client.key_exchange_algorithms[i]
                        == KeyExchangeAlgorithmOrExtensionIdView::KeyExchange(
                        negotiated.key_exchange,
                    )
                    &&& forall|j: int|
                        0 <= j < i && client.key_exchange_algorithms[j] is KeyExchange
                            ==> !server.key_exchange_algorithms.contains(
                            #[trigger] client.key_exchange_algorithms[j],
                        )
                }
            &&& server.server_host_key_algorithms.contains(negotiated.server_host_key)
            &&& exists|i: int|
                {
                    &&& 0 <= i < client.server_host_key_algorithms.len()
                    &&& #[trigger] client.server_host_key_algorithms[i]
                        == negotiated.server_host_key
                    &&& forall|j: int|
                        0 <= j < i ==> !server.server_host_key_algorithms.contains(
                            #[trigger] client.server_host_key_algorithms[j],
                        )
                }
            &&& server.encryption_algorithms_client_to_server.contains(
                negotiated.encryption_client_to_server,
            )
            &&& exists|i: int|
                {
                    &&& 0 <= i < client.encryption_algorithms_client_to_server.len()
                    &&& #[trigger] client.encryption_algorithms_client_to_server[i]
                        == negotiated.encryption_client_to_server
                    &&& forall|j: int|
                        0 <= j < i ==> !server.encryption_algorithms_client_to_server.contains(
                            #[trigger] client.encryption_algorithms_client_to_server[j],
                        )
                }
            &&& server.encryption_algorithms_server_to_client.contains(
                negotiated.encryption_server_to_client,
            )
            &&& exists|i: int|
                {
                    &&& 0 <= i < client.encryption_algorithms_server_to_client.len()
                    &&& #[trigger] client.encryption_algorithms_server_to_client[i]
                        == negotiated.encryption_server_to_client
                    &&& forall|j: int|
                        0 <= j < i ==> !server.encryption_algorithms_server_to_client.contains(
                            #[trigger] client.encryption_algorithms_server_to_client[j],
                        )
                }
        },
{
    let (ours, theirs) = (server.key_exchange_algorithms, client.key_exchange_algorithms);
    first_key_exchange_is_preferred(theirs, ours);
    first_common_is_preferred(
        client.server_host_key_algorithms,
        server.server_host_key_algorithms,
    );
    first_common_is_preferred(
        client.encryption_algorithms_client_to_server,
        server.encryption_algorithms_client_to_server,
    );
    first_common_is_preferred(
        client.encryption_algorithms_server_to_client,
        server.encryption_algorithms_server_to_client,
    );
}

/// Where both sides have something in common in every category, negotiation succeeds. It fails
/// only for a category in which they have nothing in common, and names it.
pub proof fn common_algorithms_suffice(client: KeyExchangeInitView, server: KeyExchangeInitView)
    ensures
        ({
            let key_exchange = exists|i: int|
                {
                    &&& 0 <= i < client.key_exchange_algorithms.len()
                    &&& client.key_exchange_algorithms[i] is KeyExchange
                    &&& server.key_exchange_algorithms.contains(
                        #[trigger] client.key_exchange_algorithms[i],
                    )
                };
            let host_key = exists|i: int|
                0 <= i < client.server_host_key_algorithms.len()
                    && server.server_host_key_algorithms.contains(
                    #[trigger] client.server_host_key_algorithms[i],
                );
            let to_server = exists|i: int|
                0 <= i < client.encryption_algorithms_client_to_server.len()
                    && server.encryption_algorithms_client_to_server.contains(
                    #[trigger] client.encryption_algorithms_client_to_server[i],
                );
            let to_client = exists|i: int|
                0 <= i < client.encryption_algorithms_server_to_client.len()
                    && server.encryption_algorithms_server_to_client.contains(
                    #[trigger] client.encryption_algorithms_server_to_client[i],
                );
            match Negotiated::agreed(client, server) {
                Ok(_) => key_exchange && host_key && to_server && to_client,
                Err(ProtoError::NoCommonAlgorithm(category)) => {
                    ||| category == "key exchange" && !key_exchange
                    ||| category == "host key" && key_exchange && !host_key
                    ||| category == "encryption (client to server)" && key_exchange && host_key
                        && !to_server
                    ||| category == "encryption (server to client)" && key_exchange && host_key
                        && to_server && !to_client
                },
                Err(_) => false,
            }
        }),
{
    client_preferences_decide(client, server);
    first_key_exchange_is_preferred(
        client.key_exchange_algorithms,
        server.key_exchange_algorithms,
    );
    first_common_is_preferred(
        client.server_host_key_algorithms,
        server.server_host_key_algorithms,
    );
    first_common_is_preferred(
        client.encryption_algorithms_client_to_server,
        server.encryption_algorithms_client_to_server,
    );
    first_common_is_preferred(
        client.encryption_algorithms_server_to_client,
        server.encryption_algorithms_server_to_client,
    );
}

/// The extension messages and strict key exchange are used where the client has asked for them,
/// anywhere among its key exchange algorithms, and only there.
pub proof fn client_markers_decide(client: KeyExchangeInitView, server: KeyExchangeInitView)
    ensures
        Negotiated::agreed(client, server) matches Ok(negotiated) ==> {
            &&& negotiated.want_extension_info <==> exists|i: int|
                0 <= i < client.key_exchange_algorithms.len()
                    && #[trigger] client.key_exchange_algorithms[i]
                    == KeyExchangeAlgorithmOrExtensionIdView::Extension(ExtensionIdView::ExtInfoC)
            &&& negotiated.strict_key_exchange <==> exists|i: int|
                0 <= i < client.key_exchange_algorithms.len()
                    && #[trigger] client.key_exchange_algorithms[i]
                    == KeyExchangeAlgorithmOrExtensionIdView::Extension(
                    ExtensionIdView::StrictKexClient,
                )
        },
{
}

} // verus!
