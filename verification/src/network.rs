//! The networks a project can target, and what is known of each.

use crate::text::same_text;
use vstd::prelude::*;

verus! {

/// What the templates need to know of a network.
#[derive(Debug, Clone, Copy, PartialEq, Eq)]
pub struct NetworkProfile {
    /// The name under which the network is imported in generated code.
    pub import_name: &'static str,
    /// The network's identifier.
    pub name: &'static str,
    /// The name shown to people.
    pub display: &'static str,
    /// The chain identifier, in decimal.
    pub chain_id: &'static str,
    /// The RPC endpoint.
    pub rpc_url: &'static str,
    /// The block explorer.
    pub explorer_url: &'static str,
    /// The documentation.
    pub docs_url: &'static str,
}

/// The profile of Base.
pub open spec fn base_profile() -> NetworkProfile {
    NetworkProfile {
        import_name: "base",
        name: "base",
        display: "Base",
        chain_id: "8453",
        rpc_url: "https://mainnet.base.org",
        explorer_url: "https://basescan.org",
        docs_url: "https://docs.base.org",
    }
}

/// The profile of Optimism.
pub open spec fn optimism_profile() -> NetworkProfile {
    NetworkProfile {
        import_name: "optimism",
        name: "optimism",
        display: "Optimism",
        chain_id: "10",
        rpc_url: "https://mainnet.optimism.io",
        explorer_url: "https://optimistic.etherscan.io",
        docs_url: "https://docs.optimism.io",
    }
}

/// The profile that belongs to a network identifier, if the network is known.
pub open spec fn known_profile(network: Seq<char>) -> Option<NetworkProfile> {
    if network == "base"@ {
        Some(base_profile())
    } else if network == "optimism"@ {
        Some(optimism_profile())
    } else {
        None
    }
}

/// The profile used where a network identifier must yield one: that of the
/// network if it is known, and that of Base for every other identifier.
pub open spec fn profile_or_base(network: Seq<char>) -> NetworkProfile {
    match known_profile(network) {
        Some(profile) => profile,
        None => base_profile(),
    }
}

impl NetworkProfile {
    /// Looks a network up by its identifier.
    pub fn lookup(network: &str) -> (r: Option<NetworkProfile>)
        ensures
            r == known_profile(network@),
    {
        if same_text(network, "base") {
            Some(
                NetworkProfile {
                    import_name: "base",
                    name: "base",
                    display: "Base",
                    chain_id: "8453",
                    rpc_url: "https://mainnet.base.org",
                    explorer_url: "https://basescan.org",
                    docs_url: "https://docs.base.org",
                },
            )
        } else if same_text(network, "optimism") {
            Some(
                NetworkProfile {
                    import_name: "optimism",
                    name: "optimism",
                    display: "Optimism",
                    chain_id: "10",
                    rpc_url: "https://mainnet.optimism.io",
                    explorer_url: "https://optimistic.etherscan.io",
                    docs_url: "https://docs.optimism.io",
                },
            )
        } else {
            None
        }
    }

    /// Looks a network up by its identifier; an identifier that is not known
    /// yields the profile of Base.
    pub fn lookup_or_base(network: &str) -> (r: NetworkProfile)
        ensures
            r == profile_or_base(network@),
    {
        match NetworkProfile::lookup(network) {
            Some(profile) => profile,
            None => NetworkProfile::lookup("base").unwrap(),
        }
    }
}

} // verus!
