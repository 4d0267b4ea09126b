//! The declarative query model of the client gateway.
//!
//! These are the requests a client can address to a peer about the
//! world state. The consensus core never interprets them; they are
//! plain data, listed here so the gateway and the tests share one
//! vocabulary. Carrying them over the wire, timestamping and signing
//! them belong to the gateway runtime.

use crate::hashing::{digest_of, HashValue};
use vstd::prelude::*;

verus! {

/// The digest a query request is signed over: the encoded query
/// followed by the timestamp bytes. Encoding the query for the wire is
/// the gateway's; the digest of the result is pinned here.
pub fn request_digest(encoded_query: &Vec<u8>, timestamp_bytes: &Vec<u8>) -> (r: HashValue)
    ensures
        r@ == digest_of(encoded_query@ + timestamp_bytes@),
        r.wf(),
{
    let mut payload = crate::hashing::clone_bytes(encoded_query);
    let mut i: usize = 0;
    proof {
        assert(payload@ =~= encoded_query@ + timestamp_bytes@.take(0));
    }
    while i < timestamp_bytes.len()
        invariant
            i <= timestamp_bytes@.len(),
            payload@ == encoded_query@ + timestamp_bytes@.take(i as int),
        decreases timestamp_bytes@.len() - i,
    {
        let b = timestamp_bytes[i];
        payload.push(b);
        proof {
            assert(payload@ =~= encoded_query@ + timestamp_bytes@.take(i + 1));
        }
        i += 1;
    }
    proof {
        assert(timestamp_bytes@.take(timestamp_bytes@.len() as int) =~= timestamp_bytes@);
    }
    HashValue::new(&payload)
}

/// A name: of an account, an asset definition or a domain.
#[derive(Clone, Debug)]
pub struct Name {
    /// The name itself.
    pub value: String,
}

/// Identification of an account: its name under a domain.
#[derive(Clone, Debug)]
pub struct AccountId {
    /// The account's name.
    pub name: String,
    /// The domain the account lives in.
    pub domain_name: String,
}

/// Identification of an asset definition: its name under a domain.
#[derive(Clone, Debug)]
pub struct AssetDefinitionId {
    /// The definition's name.
    pub name: String,
    /// The domain the definition lives in.
    pub domain_name: String,
}

/// Identification of an asset: a definition held by an account.
#[derive(Clone, Debug)]
pub struct AssetId {
    /// Which kind of asset.
    pub definition_id: AssetDefinitionId,
    /// Which account holds it.
    pub account_id: AccountId,
}

/// Finds all accounts.
#[derive(Clone, Copy, Debug, Default, PartialEq, Eq, Structural)]
pub struct FindAllAccounts {}

/// Finds an account by its identification.
#[derive(Clone, Debug)]
pub struct FindAccountById {
    /// The account to find.
    pub id: AccountId,
}

/// Finds all accounts with a name.
#[derive(Clone, Debug)]
pub struct FindAccountsByName {
    /// The name to look for.
    pub name: Name,
}

/// Finds all accounts under a domain.
#[derive(Clone, Debug)]
pub struct FindAccountsByDomainName {
    /// The domain to look under.
    pub domain_name: Name,
}

/// Finds all assets.
#[derive(Clone, Copy, Debug, Default, PartialEq, Eq, Structural)]
pub struct FindAllAssets {}

/// Finds all asset definitions.
#[derive(Clone, Copy, Debug, Default, PartialEq, Eq, Structural)]
pub struct FindAllAssetsDefinitions {}

/// Finds an asset by its identification.
#[derive(Clone, Debug)]
pub struct FindAssetById {
    /// The asset to find.
    pub id: AssetId,
}

/// Finds all assets with a name.
#[derive(Clone, Debug)]
pub struct FindAssetsByName {
    /// The name to look for.
    pub name: Name,
}

/// Finds all assets owned by an account.
#[derive(Clone, Debug)]
pub struct FindAssetsByAccountId {
    /// The owning account.
    pub account_id: AccountId,
}

/// Finds all assets of one definition.
#[derive(Clone, Debug)]
pub struct FindAssetsByAssetDefinitionId {
    /// The definition to look for.
    pub asset_definition_id: AssetDefinitionId,
}

/// Finds all assets under a domain.
#[derive(Clone, Debug)]
pub struct FindAssetsByDomainName {
    /// The domain to look under.
    pub domain_name: Name,
}

/// Finds the assets of one definition owned by an account.
#[derive(Clone, Debug)]
pub struct FindAssetsByAccountIdAndAssetDefinitionId {
    /// The owning account.
    pub account_id: AccountId,
    /// The definition to look for.
    pub asset_definition_id: AssetDefinitionId,
}

/// Finds the assets of one definition under a domain.
#[derive(Clone, Debug)]
pub struct FindAssetsByDomainNameAndAssetDefinitionId {
    /// The domain to look under.
    pub domain_name: Name,
    /// The definition to look for.
    pub asset_definition_id: AssetDefinitionId,
}

/// Finds the quantity of an asset.
#[derive(Clone, Debug)]
pub struct FindAssetQuantityById {
    /// The asset to read.
    pub id: AssetId,
}

/// Finds all domains.
#[derive(Clone, Copy, Debug, Default, PartialEq, Eq, Structural)]
pub struct FindAllDomains {}

/// Finds a domain by name.
#[derive(Clone, Debug)]
pub struct FindDomainByName {
    /// The name to find.
    pub name: Name,
}

/// Finds all trusted peers.
#[derive(Clone, Copy, Debug, Default, PartialEq, Eq, Structural)]
pub struct FindAllPeers {}

/// Finds a trusted peer by its identification.
#[derive(Clone, Debug)]
pub struct FindPeerById {
    /// The peer to find.
    pub id: crate::peer::PeerId,
}

/// Finds all peer parameters.
#[derive(Clone, Copy, Debug, Default, PartialEq, Eq, Structural)]
pub struct FindAllParameters {}

/// Sized container for all possible queries.
#[derive(Clone, Debug)]
pub enum QueryBox {
    /// `FindAllAccounts` variant.
    FindAllAccounts(Box<FindAllAccounts>),
    /// `FindAccountById` variant.
    FindAccountById(Box<FindAccountById>),
    /// `FindAccountsByName` variant.
    FindAccountsByName(Box<FindAccountsByName>),
    /// `FindAccountsByDomainName` variant.
    FindAccountsByDomainName(Box<FindAccountsByDomainName>),
    /// `FindAllAssets` variant.
    FindAllAssets(Box<FindAllAssets>),
    /// `FindAllAssetsDefinitions` variant.
    FindAllAssetsDefinitions(Box<FindAllAssetsDefinitions>),
    /// `FindAssetById` variant.
    FindAssetById(Box<FindAssetById>),
    /// `FindAssetsByName` variant.
    FindAssetsByName(Box<FindAssetsByName>),
    /// `FindAssetsByAccountId` variant.
    FindAssetsByAccountId(Box<FindAssetsByAccountId>),
    /// `FindAssetsByAssetDefinitionId` variant.
    FindAssetsByAssetDefinitionId(Box<FindAssetsByAssetDefinitionId>),
    /// `FindAssetsByDomainName` variant.
    FindAssetsByDomainName(Box<FindAssetsByDomainName>),
    /// `FindAssetsByAccountIdAndAssetDefinitionId` variant.
    FindAssetsByAccountIdAndAssetDefinitionId(Box<FindAssetsByAccountIdAndAssetDefinitionId>),
    /// `FindAssetsByDomainNameAndAssetDefinitionId` variant.
    FindAssetsByDomainNameAndAssetDefinitionId(Box<FindAssetsByDomainNameAndAssetDefinitionId>),
    /// `FindAssetQuantityById` variant.
    FindAssetQuantityById(Box<FindAssetQuantityById>),
    /// `FindAllDomains` variant.
    FindAllDomains(Box<FindAllDomains>),
    /// `FindDomainByName` variant.
    FindDomainByName(Box<FindDomainByName>),
    /// `FindAllPeers` variant.
    FindAllPeers(Box<FindAllPeers>),
    /// `FindPeerById` variant.
    FindPeerById(Box<FindPeerById>),
    /// `FindAllParameters` variant.
    FindAllParameters(Box<FindAllParameters>),
}

impl From<FindAllAccounts> for QueryBox {
    fn from(query: FindAllAccounts) -> (r: QueryBox) {
        QueryBox::FindAllAccounts(Box::new(query))
    }
}

impl vstd::std_specs::convert::FromSpecImpl<FindAllAccounts> for QueryBox {
    open spec fn obeys_from_spec() -> bool {
        true
    }

    open spec fn from_spec(query: FindAllAccounts) -> QueryBox {
        QueryBox::FindAllAccounts(Box::new(query))
    }
}

impl From<FindAccountById> for QueryBox {
    fn from(query: FindAccountById) -> (r: QueryBox) {
        QueryBox::FindAccountById(Box::new(query))
    }
}

impl vstd::std_specs::convert::FromSpecImpl<FindAccountById> for QueryBox {
    open spec fn obeys_from_spec() -> bool {
        true
    }

    open spec fn from_spec(query: FindAccountById) -> QueryBox {
        QueryBox::FindAccountById(Box::new(query))
    }
}

impl From<FindAccountsByName> for QueryBox {
    fn from(query: FindAccountsByName) -> (r: QueryBox) {
        QueryBox::FindAccountsByName(Box::new(query))
    }
}

impl vstd::std_specs::convert::FromSpecImpl<FindAccountsByName> for QueryBox {
    open spec fn obeys_from_spec() -> bool {
        true
    }

    open spec fn from_spec(query: FindAccountsByName) -> QueryBox {
        QueryBox::FindAccountsByName(Box::new(query))
    }
}

impl From<FindAccountsByDomainName> for QueryBox {
    fn from(query: FindAccountsByDomainName) -> (r: QueryBox) {
        QueryBox::FindAccountsByDomainName(Box::new(query))
    }
}

impl vstd::std_specs::convert::FromSpecImpl<FindAccountsByDomainName> for QueryBox {
    open spec fn obeys_from_spec() -> bool {
        true
    }

    open spec fn from_spec(query: FindAccountsByDomainName) -> QueryBox {
        QueryBox::FindAccountsByDomainName(Box::new(query))
    }
}

impl From<FindAllAssets> for QueryBox {
    fn from(query: FindAllAssets) -> (r: QueryBox) {
        QueryBox::FindAllAssets(Box::new(query))
    }
}

impl vstd::std_specs::convert::FromSpecImpl<FindAllAssets> for QueryBox {
    open spec fn obeys_from_spec() -> bool {
        true
    }

    open spec fn from_spec(query: FindAllAssets) -> QueryBox {
        QueryBox::FindAllAssets(Box::new(query))
    }
}

impl From<FindAllAssetsDefinitions> for QueryBox {
    fn from(query: FindAllAssetsDefinitions) -> (r: QueryBox) {
        QueryBox::FindAllAssetsDefinitions(Box::new(query))
    }
}

impl vstd::std_specs::convert::FromSpecImpl<FindAllAssetsDefinitions> for QueryBox {
    open spec fn obeys_from_spec() -> bool {
        true
    }

    open spec fn from_spec(query: FindAllAssetsDefinitions) -> QueryBox {
        QueryBox::FindAllAssetsDefinitions(Box::new(query))
    }
}

impl From<FindAssetById> for QueryBox {
    fn from(query: FindAssetById) -> (r: QueryBox) {
        QueryBox::FindAssetById(Box::new(query))
    }
}

impl vstd::std_specs::convert::FromSpecImpl<FindAssetById> for QueryBox {
    open spec fn obeys_from_spec() -> bool {
        true
    }

    open spec fn from_spec(query: FindAssetById) -> QueryBox {
        QueryBox::FindAssetById(Box::new(query))
    }
}

impl From<FindAssetsByName> for QueryBox {
    fn from(query: FindAssetsByName) -> (r: QueryBox) {
        QueryBox::FindAssetsByName(Box::new(query))
    }
}

impl vstd::std_specs::convert::FromSpecImpl<FindAssetsByName> for QueryBox {
    open spec fn obeys_from_spec() -> bool {
        true
    }

    open spec fn from_spec(query: FindAssetsByName) -> QueryBox {
        QueryBox::FindAssetsByName(Box::new(query))
    }
}

impl From<FindAssetsByAccountId> for QueryBox {
    fn from(query: FindAssetsByAccountId) -> (r: QueryBox) {
        QueryBox::FindAssetsByAccountId(Box::new(query))
    }
}

impl vstd::std_specs::convert::FromSpecImpl<FindAssetsByAccountId> for QueryBox {
    open spec fn obeys_from_spec() -> bool {
        true
    }

    open spec fn from_spec(query: FindAssetsByAccountId) -> QueryBox {
        QueryBox::FindAssetsByAccountId(Box::new(query))
    }
}

impl From<FindAssetsByAssetDefinitionId> for QueryBox {
    fn from(query: FindAssetsByAssetDefinitionId) -> (r: QueryBox) {
        QueryBox::FindAssetsByAssetDefinitionId(Box::new(query))
    }
}

impl vstd::std_specs::convert::FromSpecImpl<FindAssetsByAssetDefinitionId> for QueryBox {
    open spec fn obeys_from_spec() -> bool {
        true
    }

    open spec fn from_spec(query: FindAssetsByAssetDefinitionId) -> QueryBox {
        QueryBox::FindAssetsByAssetDefinitionId(Box::new(query))
    }
}

impl From<FindAssetsByDomainName> for QueryBox {
    fn from(query: FindAssetsByDomainName) -> (r: QueryBox) {
        QueryBox::FindAssetsByDomainName(Box::new(query))
    }
}

impl vstd::std_specs::convert::FromSpecImpl<FindAssetsByDomainName> for QueryBox {
    open spec fn obeys_from_spec() -> bool {
        true
    }

    open spec fn from_spec(query: FindAssetsByDomainName) -> QueryBox {
        QueryBox::FindAssetsByDomainName(Box::new(query))
    }
}

impl From<FindAssetsByAccountIdAndAssetDefinitionId> for QueryBox {
    fn from(query: FindAssetsByAccountIdAndAssetDefinitionId) -> (r: QueryBox) {
        QueryBox::FindAssetsByAccountIdAndAssetDefinitionId(Box::new(query))
    }
}

impl vstd::std_specs::convert::FromSpecImpl<FindAssetsByAccountIdAndAssetDefinitionId> for QueryBox {
    open spec fn obeys_from_spec() -> bool {
        true
    }

    open spec fn from_spec(query: FindAssetsByAccountIdAndAssetDefinitionId) -> QueryBox {
        QueryBox::FindAssetsByAccountIdAndAssetDefinitionId(Box::new(query))
    }
}

impl From<FindAssetsByDomainNameAndAssetDefinitionId> for QueryBox {
    fn from(query: FindAssetsByDomainNameAndAssetDefinitionId) -> (r: QueryBox) {
        QueryBox::FindAssetsByDomainNameAndAssetDefinitionId(Box::new(query))
    }
}

impl vstd::std_specs::convert::FromSpecImpl<FindAssetsByDomainNameAndAssetDefinitionId> for QueryBox {
    open spec fn obeys_from_spec() -> bool {
        true
    }

    open spec fn from_spec(query: FindAssetsByDomainNameAndAssetDefinitionId) -> QueryBox {
        QueryBox::FindAssetsByDomainNameAndAssetDefinitionId(Box::new(query))
    }
}

impl From<FindAssetQuantityById> for QueryBox {
    fn from(query: FindAssetQuantityById) -> (r: QueryBox) {
        QueryBox::FindAssetQuantityById(Box::new(query))
    }
}

impl vstd::std_specs::convert::FromSpecImpl<FindAssetQuantityById> for QueryBox {
    open spec fn obeys_from_spec() -> bool {
        true
    }

    open spec fn from_spec(query: FindAssetQuantityById) -> QueryBox {
        QueryBox::FindAssetQuantityById(Box::new(query))
    }
}

impl From<FindAllDomains> for QueryBox {
    fn from(query: FindAllDomains) -> (r: QueryBox) {
        QueryBox::FindAllDomains(Box::new(query))
    }
}

impl vstd::std_specs::convert::FromSpecImpl<FindAllDomains> for QueryBox {
    open spec fn obeys_from_spec() -> bool {
        true
    }

    open spec fn from_spec(query: FindAllDomains) -> QueryBox {
        QueryBox::FindAllDomains(Box::new(query))
    }
}

impl From<FindDomainByName> for QueryBox {
    fn from(query: FindDomainByName) -> (r: QueryBox) {
        QueryBox::FindDomainByName(Box::new(query))
    }
}

impl vstd::std_specs::convert::FromSpecImpl<FindDomainByName> for QueryBox {
    open spec fn obeys_from_spec() -> bool {
        true
    }

    open spec fn from_spec(query: FindDomainByName) -> QueryBox {
        QueryBox::FindDomainByName(Box::new(query))
    }
}

impl From<FindAllPeers> for QueryBox {
    fn from(query: FindAllPeers) -> (r: QueryBox) {
        QueryBox::FindAllPeers(Box::new(query))
    }
}

impl vstd::std_specs::convert::FromSpecImpl<FindAllPeers> for QueryBox {
    open spec fn obeys_from_spec() -> bool {
        true
    }

    open spec fn from_spec(query: FindAllPeers) -> QueryBox {
        QueryBox::FindAllPeers(Box::new(query))
    }
}

impl From<FindPeerById> for QueryBox {
    fn from(query: FindPeerById) -> (r: QueryBox) {
        QueryBox::FindPeerById(Box::new(query))
    }
}

impl vstd::std_specs::convert::FromSpecImpl<FindPeerById> for QueryBox {
    open spec fn obeys_from_spec() -> bool {
        true
    }

    open spec fn from_spec(query: FindPeerById) -> QueryBox {
        QueryBox::FindPeerById(Box::new(query))
    }
}

impl From<FindAllParameters> for QueryBox {
    fn from(query: FindAllParameters) -> (r: QueryBox) {
        QueryBox::FindAllParameters(Box::new(query))
    }
}

impl vstd::std_specs::convert::FromSpecImpl<FindAllParameters> for QueryBox {
    open spec fn obeys_from_spec() -> bool {
        true
    }

    open spec fn from_spec(query: FindAllParameters) -> QueryBox {
        QueryBox::FindAllParameters(Box::new(query))
    }
}

impl FindAllAccounts {
    /// Default `FindAllAccounts` constructor.
    pub fn new() -> (r: Self)
        ensures
            r == (FindAllAccounts {  }),
    {
        FindAllAccounts {  }
    }
}

impl FindAccountById {
    /// Default `FindAccountById` constructor.
    pub fn new(id: AccountId) -> (r: Self)
        ensures
            r.id == id,
    {
        FindAccountById { id }
    }
}

impl FindAccountsByName {
    /// Default `FindAccountsByName` constructor.
    pub fn new(name: Name) -> (r: Self)
        ensures
            r.name == name,
    {
        FindAccountsByName { name }
    }
}

impl FindAccountsByDomainName {
    /// Default `FindAccountsByDomainName` constructor.
    pub fn new(domain_name: Name) -> (r: Self)
        ensures
            r.domain_name == domain_name,
    {
        FindAccountsByDomainName { domain_name }
    }
}

impl FindAllAssets {
    /// Default `FindAllAssets` constructor.
    pub fn new() -> (r: Self)
        ensures
            r == (FindAllAssets {  }),
    {
        FindAllAssets {  }
    }
}

impl FindAllAssetsDefinitions {
    /// Default `FindAllAssetsDefinitions` constructor.
    pub fn new() -> (r: Self)
        ensures
            r == (FindAllAssetsDefinitions {  }),
    {
        FindAllAssetsDefinitions {  }
    }
}

impl FindAssetsByAccountId {
    /// Default `FindAssetsByAccountId` constructor.
    pub fn new(account_id: AccountId) -> (r: Self)
        ensures
            r.account_id == account_id,
    {
        FindAssetsByAccountId { account_id }
    }
}

impl FindAssetsByAssetDefinitionId {
    /// Default `FindAssetsByAssetDefinitionId` constructor.
    pub fn new(asset_definition_id: AssetDefinitionId) -> (r: Self)
        ensures
            r.asset_definition_id == asset_definition_id,
    {
        FindAssetsByAssetDefinitionId { asset_definition_id }
    }
}

impl FindAssetsByAccountIdAndAssetDefinitionId {
    /// Default `FindAssetsByAccountIdAndAssetDefinitionId` constructor.
    pub fn new(account_id: AccountId, asset_definition_id: AssetDefinitionId) -> (r: Self)
        ensures
            r.account_id == account_id,
            r.asset_definition_id == asset_definition_id,
    {
        FindAssetsByAccountIdAndAssetDefinitionId { account_id, asset_definition_id }
    }
}

impl FindAssetQuantityById {
    /// Default `FindAssetQuantityById` constructor.
    pub fn new(id: AssetId) -> (r: Self)
        ensures
            r.id == id,
    {
        FindAssetQuantityById { id }
    }
}

impl FindAllDomains {
    /// Default `FindAllDomains` constructor.
    pub fn new() -> (r: Self)
        ensures
            r == (FindAllDomains {  }),
    {
        FindAllDomains {  }
    }
}

impl FindDomainByName {
    /// Default `FindDomainByName` constructor.
    pub fn new(name: Name) -> (r: Self)
        ensures
            r.name == name,
    {
        FindDomainByName { name }
    }
}

impl FindAllPeers {
    /// Default `FindAllPeers` constructor.
    pub fn new() -> (r: Self)
        ensures
            r == (FindAllPeers {  }),
    {
        FindAllPeers {  }
    }
}

impl FindPeerById {
    /// Default `FindPeerById` constructor.
    pub fn new(id: crate::peer::PeerId) -> (r: Self)
        ensures
            r.id@ == id@,
    {
        FindPeerById { id }
    }
}

impl FindAllParameters {
    /// Default `FindAllParameters` constructor.
    pub fn new() -> (r: Self)
        ensures
            r == (FindAllParameters {  }),
    {
        FindAllParameters {  }
    }
}

} // verus!
