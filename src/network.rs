//! Which kind of network derived keys are made for.

use vstd::prelude::*;
use vstd::string::StringExecFns;

verus! {

/// The kind of network a derived key belongs to.
#[derive(Debug, Clone, Copy, PartialEq, Eq, Structural)]
pub enum NetworkKind {
    Main,
    Test,
}

impl NetworkKind {
    pub open spec fn is_test(self) -> bool {
        self is Test
    }
}

/// The kind a network selector names: the test networks are "signet",
/// "testnet" and "regtest"; any other selector means the main network.
pub open spec fn network_kind_spec(network: Seq<char>) -> NetworkKind {
    if network == "signet"@ || network == "testnet"@ || network == "regtest"@ {
        NetworkKind::Test
    } else {
        NetworkKind::Main
    }
}

/// Maps a network selector to the kind of network it names.
pub fn get_network_kind(network: &str) -> (r: NetworkKind)
    ensures
        r == network_kind_spec(network@),
{
    let given = network.to_owned();
    if given == String::from_str("signet") || given == String::from_str("testnet") || given
        == String::from_str("regtest") {
        NetworkKind::Test
    } else {
        NetworkKind::Main
    }
}

} // verus!
