//! The root node that a client starts from: the root of the main network,
//! or, where a test has asked for it, another node.

use crate::client::principal::{principal_of_text, PrincipalId};
use crate::client::types::{CnsError, CnsFault};
use vstd::prelude::*;
use vstd::string::*;

verus! {

/// What a client is started with, where it is started for a test: the text
/// form of the root node to use.
#[derive(Debug, PartialEq, Eq)]
pub struct ClientInit {
    pub cns_root_cid: String,
}

/// The root node that a client starts from, and whether a test may put
/// another in its place.
#[derive(Debug, PartialEq, Eq)]
pub struct CnsConfig {
    root: PrincipalId,
    for_testing: bool,
}

/// A [`CnsConfig`] as plain values.
pub struct ConfigView {
    pub root: Seq<u8>,
    pub for_testing: bool,
}

impl View for CnsConfig {
    type V = ConfigView;

    closed spec fn view(&self) -> ConfigView {
        ConfigView { root: self.root@, for_testing: self.for_testing }
    }
}

/// The text form of the root node of the main network.
pub open spec fn mainnet_root_text() -> Seq<char> {
    "rupqg-4qaaa-aaaad-qhosa-cai"@
}

/// What a client starts with, where `mainnet` is what the text form of the
/// main network's root reads as, and `given` what the text of `init` reads
/// as. Without `init` the client uses the main network and takes no other
/// root. With `init` it is started for a test and uses the root that
/// `init` names.
pub open spec fn config_of(
    init: Option<Seq<char>>,
    mainnet: Option<Seq<u8>>,
    given: Option<Seq<u8>>,
) -> Result<ConfigView, CnsFault> {
    match init {
        None => match mainnet {
            Some(root) => Ok(ConfigView { root, for_testing: false }),
            None => Err(
                CnsFault::Internal("Failed parsing CNS root canister id: "@ + mainnet_root_text()),
            ),
        },
        Some(text) => match given {
            Some(root) => Ok(ConfigView { root, for_testing: true }),
            None => Err(CnsFault::Internal("Failed parsing init CNS root CID: "@ + text)),
        },
    }
}

/// The text of `init`, where there is one.
pub open spec fn init_text(init: Option<ClientInit>) -> Option<Seq<char>> {
    match init {
        Some(i) => Some(i.cns_root_cid@),
        None => None,
    }
}

impl CnsConfig {
    /// The text form of the root node of the main network.
    pub fn cns_root_mainnet() -> (r: &'static str)
        ensures
            r@ == mainnet_root_text(),
    {
        "rupqg-4qaaa-aaaad-qhosa-cai"
    }

    /// What a client starts with, where `mainnet` is what the text form of
    /// the main network's root reads as, and `given` what the text of
    /// `init` reads as.
    pub fn from_parsed(
        init: Option<ClientInit>,
        mainnet: Option<PrincipalId>,
        given: Option<PrincipalId>,
    ) -> (r: Result<Self, CnsError>)
        ensures
            match r {
                Ok(config) => config_of(
                    init_text(init),
                    crate::client::protocol::opt_id(mainnet),
                    crate::client::protocol::opt_id(given),
                ) == Ok::<ConfigView, CnsFault>(config@),
                Err(e) => config_of(
                    init_text(init),
                    crate::client::protocol::opt_id(mainnet),
                    crate::client::protocol::opt_id(given),
                ) == Err::<ConfigView, CnsFault>(e@),
            },
    {
        match init {
            None => match mainnet {
                Some(root) => Ok(CnsConfig { root, for_testing: false }),
                None => Err(
                    CnsError::Internal(
                        String::from_str("Failed parsing CNS root canister id: ").concat(
                            Self::cns_root_mainnet(),
                        ),
                    ),
                ),
            },
            Some(i) => match given {
                Some(root) => Ok(CnsConfig { root, for_testing: true }),
                None => Err(
                    CnsError::Internal(
                        String::from_str("Failed parsing init CNS root CID: ").concat(
                            i.cns_root_cid.as_str(),
                        ),
                    ),
                ),
            },
        }
    }

    /// What a client starts with: the root of the main network, or, where
    /// `init` is given, the root that it names, for a test.
    pub fn new(init: Option<ClientInit>) -> (r: Result<Self, CnsError>)
        ensures
            match r {
                Ok(config) => config_of(
                    init_text(init),
                    principal_of_text(mainnet_root_text()),
                    match init {
                        Some(i) => principal_of_text(i.cns_root_cid@),
                        None => None,
                    },
                ) == Ok::<ConfigView, CnsFault>(config@),
                Err(e) => config_of(
                    init_text(init),
                    principal_of_text(mainnet_root_text()),
                    match init {
                        Some(i) => principal_of_text(i.cns_root_cid@),
                        None => None,
                    },
                ) == Err::<ConfigView, CnsFault>(e@),
            },
    {
        let mainnet = PrincipalId::from_text(Self::cns_root_mainnet());
        let given = match &init {
            Some(i) => PrincipalId::from_text(i.cns_root_cid.as_str()),
            None => None,
        };
        Self::from_parsed(init, mainnet, given)
    }

    /// The root node.
    pub fn root(&self) -> (r: &PrincipalId)
        ensures
            r@ == self@.root,
    {
        &self.root
    }

    /// Whether the client was started for a test.
    pub fn is_for_testing(&self) -> (r: bool)
        ensures
            r == self@.for_testing,
    {
        self.for_testing
    }

    /// Puts another root node in place of the one in use, for a client that
    /// was started for a test; any other client keeps its root. Says
    /// whether the root was replaced.
    pub fn override_cns_root_for_testing(&mut self, cns_root_for_testing: PrincipalId) -> (replaced:
        bool)
        ensures
            replaced == old(self)@.for_testing,
            final(self)@ == if replaced {
                ConfigView { root: cns_root_for_testing@, for_testing: true }
            } else {
                old(self)@
            },
    {
        if self.for_testing {
            self.root = cns_root_for_testing;
            true
        } else {
            false
        }
    }
}

} // verus!
