use crate::snapshot::{CacheSnapshot, SnapshotV};
use vstd::prelude::*;

verus! {

/// The signing identity a validator node runs with: its account id and the
/// public key it signs account data under.
pub struct ValidatorConfig {
    pub account_id: Vec<u8>,
    pub public_key: Vec<u8>,
}

pub ghost struct ValidatorConfigV {
    pub account_id: Seq<u8>,
    pub public_key: Seq<u8>,
}

impl View for ValidatorConfig {
    type V = ValidatorConfigV;

    open spec fn view(&self) -> ValidatorConfigV {
        ValidatorConfigV { account_id: self.account_id@, public_key: self.public_key@ }
    }
}

/// The slice of a node's network state that decides its standing in the
/// direct validator network: whether that tier is enabled, and the
/// validator identity, if the node has one.
pub struct NetworkState {
    pub tier1_enabled: bool,
    pub validator: Option<ValidatorConfig>,
}

/// Whether this node's validator key is among the account keys the given
/// accounts-data snapshot considers important for its account.
pub open spec fn is_tier1_validator(s: NetworkState, snap: SnapshotV) -> bool {
    s.tier1_enabled && match s.validator {
        Some(cfg) => snap.keys_by_id.contains_key(cfg.account_id@) && snap.keys_by_id[
            cfg.account_id@
        ].contains(cfg.public_key@),
        None => false,
    }
}

impl NetworkState {
    /// This node's validator identity, exactly when the accounts-data
    /// snapshot counts it as a direct-tier validator.
    pub fn tier1_validator_config<'a>(&'a self, accounts_data: &CacheSnapshot) -> (r: Option<
        &'a ValidatorConfig,
    >)
        requires
            accounts_data.wf(),
        ensures
            r is Some <==> is_tier1_validator(*self, accounts_data@),
            match r {
                Some(cfg) => self.validator matches Some(v) && cfg@ == v@,
                None => true,
            },
    {
        if !self.tier1_enabled {
            return None;
        }
        match &self.validator {
            Some(cfg) => {
                if accounts_data.contains_account_key(&cfg.account_id, &cfg.public_key) {
                    Some(cfg)
                } else {
                    None
                }
            },
            None => None,
        }
    }
}

} // verus!
