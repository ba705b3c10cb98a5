//! The genesis configuration of a test network.

use vstd::prelude::*;

verus! {

/// What every endowed account holds at genesis.
pub const ENDOWMENT: u128 = 1 << 60;

/// An account.
#[derive(Clone, Copy, Debug, PartialEq, Eq)]
pub struct AccountId(pub [u8; 32]);

/// The key under which an authority is discovered and signs.
#[derive(Clone, Copy, Debug, PartialEq, Eq)]
pub struct AuthorityDiscoveryId(pub [u8; 32]);

/// The session keys of an authority.
#[derive(Clone, Copy, Debug, PartialEq, Eq)]
pub struct SessionKeys {
    pub authority_discovery: AuthorityDiscoveryId,
}

/// How the changes trie is built, where one is.
#[derive(Clone, Copy, Debug, PartialEq, Eq)]
pub struct ChangesTrieConfiguration {
    pub digest_interval: u32,
    pub digest_levels: u32,
}

/// The runtime code the chain starts with.
#[derive(Debug)]
pub struct SystemConfig {
    pub code: Vec<u8>,
    pub changes_trie_config: Option<ChangesTrieConfiguration>,
}

/// The balances at genesis.
#[derive(Debug)]
pub struct BalancesConfig {
    pub balances: Vec<(AccountId, u128)>,
}

/// The session entries at genesis: account, validator, session keys.
#[derive(Debug)]
pub struct SessionConfig {
    pub keys: Vec<(AccountId, AccountId, SessionKeys)>,
}

/// The discovery keys known at genesis.
#[derive(Debug)]
pub struct AuthorityDiscoveryConfig {
    pub keys: Vec<AuthorityDiscoveryId>,
}

/// The account with administrative rights.
#[derive(Debug)]
pub struct SudoConfig {
    pub key: AccountId,
}

/// The initial state of the chain.
#[derive(Debug)]
pub struct GenesisConfig {
    pub system: Option<SystemConfig>,
    pub pallet_balances: Option<BalancesConfig>,
    pub pallet_session: Option<SessionConfig>,
    pub pallet_authority_discovery: Option<AuthorityDiscoveryConfig>,
    pub pallet_sudo: Option<SudoConfig>,
}

/// The session keys that hold `authority_discovery`.
pub fn session_keys(authority_discovery: AuthorityDiscoveryId) -> (keys: SessionKeys)
    ensures
        keys == (SessionKeys { authority_discovery }),
{
    SessionKeys { authority_discovery }
}

/// The balance entry of an endowed account.
pub open spec fn endowed(account: AccountId) -> (AccountId, u128) {
    (account, ENDOWMENT)
}

/// The session entry of an authority: it is its own validator, with the
/// session keys that hold its discovery key.
pub open spec fn session_entry(authority: (AccountId, AuthorityDiscoveryId)) -> (
    AccountId,
    AccountId,
    SessionKeys,
) {
    (authority.0, authority.0, SessionKeys { authority_discovery: authority.1 })
}

/// Builds the genesis configuration of a test network: the runtime code,
/// `ENDOWMENT` for each endowed account, a session entry for each initial
/// authority, no discovery keys, and `root_key` as the sudo key.
pub fn testnet_genesis(
    wasm_binary: &[u8],
    initial_authorities: Vec<(AccountId, AuthorityDiscoveryId)>,
    root_key: AccountId,
    endowed_accounts: Vec<AccountId>,
) -> (config: GenesisConfig)
    ensures
        config.system matches Some(system) && system.code@ == wasm_binary@
            && system.changes_trie_config is None,
        config.pallet_balances matches Some(balances) && balances.balances@
            == endowed_accounts@.map_values(|account: AccountId| endowed(account)),
        config.pallet_session matches Some(session) && session.keys@
            == initial_authorities@.map_values(
            |authority: (AccountId, AuthorityDiscoveryId)| session_entry(authority),
        ),
        config.pallet_authority_discovery matches Some(discovery) && discovery.keys@.len() == 0,
        config.pallet_sudo matches Some(sudo) && sudo.key == root_key,
{
    let mut code: Vec<u8> = Vec::new();
    code.extend_from_slice(wasm_binary);
    assert(code@ =~= wasm_binary@);
    let mut balances: Vec<(AccountId, u128)> = Vec::new();
    let mut i: usize = 0;
    while i < endowed_accounts.len()
        invariant
            i <= endowed_accounts@.len(),
            balances@ == endowed_accounts@.take(i as int).map_values(
                |account: AccountId| endowed(account),
            ),
        decreases endowed_accounts@.len() - i,
    {
        balances.push((endowed_accounts[i], ENDOWMENT));
        assert(balances@ =~= endowed_accounts@.take(i + 1).map_values(
            |account: AccountId| endowed(account),
        ));
        i += 1;
    }
    assert(endowed_accounts@.take(i as int) =~= endowed_accounts@);
    let mut keys: Vec<(AccountId, AccountId, SessionKeys)> = Vec::new();
    let mut j: usize = 0;
    while j < initial_authorities.len()
        invariant
            j <= initial_authorities@.len(),
            keys@ == initial_authorities@.take(j as int).map_values(
                |authority: (AccountId, AuthorityDiscoveryId)| session_entry(authority),
            ),
        decreases initial_authorities@.len() - j,
    {
        let authority = initial_authorities[j];
        keys.push((authority.0, authority.0, session_keys(authority.1)));
        assert(keys@ =~= initial_authorities@.take(j + 1).map_values(
            |authority: (AccountId, AuthorityDiscoveryId)| session_entry(authority),
        ));
        j += 1;
    }
    assert(initial_authorities@.take(j as int) =~= initial_authorities@);
    GenesisConfig {
        system: Some(SystemConfig { code, changes_trie_config: None }),
        pallet_balances: Some(BalancesConfig { balances }),
        pallet_session: Some(SessionConfig { keys }),
        pallet_authority_discovery: Some(AuthorityDiscoveryConfig { keys: Vec::new() }),
        pallet_sudo: Some(SudoConfig { key: root_key }),
    }
}

} // verus!
