//! The direct connections that the network layer keeps open.

use vstd::hash_map::StringHashMap;
use vstd::prelude::*;

verus! {

/// What the network layer remembers of the direct messages that wait for
/// their answer, each under the id of its request.
#[verifier::reject_recursive_types(M)]
pub struct NetworkState<M> {
    /// The open connections, by the id of the request.
    pub direct_message_connections: StringHashMap<M>,
}

impl<M> NetworkState<M> {
    /// A state without open connections.
    pub fn new() -> (state: NetworkState<M>)
        ensures
            state.direct_message_connections@ == Map::<Seq<char>, M>::empty(),
    {
        NetworkState { direct_message_connections: StringHashMap::new() }
    }
}

/// Resolves a direct connection: the connection under `id` is forgotten and
/// every other one stays. A state without such a connection stays as it is.
pub fn reduce_resolve_direct_connection<M>(network_state: &mut NetworkState<M>, id: &str)
    ensures
        final(network_state).direct_message_connections@ == old(
            network_state,
        ).direct_message_connections@.remove(id@),
{
    network_state.direct_message_connections.remove(id);
}

} // verus!
