//! The client-facing query vocabulary.

use iroha_core::peer::PeerId;
use iroha_core::query::{
    AccountId, AssetDefinitionId, AssetId, FindAccountById, FindAccountsByDomainName,
    FindAccountsByName, FindAllAccounts, FindAllAssets, FindAllAssetsDefinitions, FindAllDomains,
    FindAllParameters, FindAllPeers, FindAssetQuantityById, FindAssetsByAccountId,
    FindAssetsByAccountIdAndAssetDefinitionId, FindAssetsByAssetDefinitionId, FindDomainByName,
    FindPeerById, Name, QueryBox,
};

fn account() -> AccountId {
    AccountId { name: "alice".to_string(), domain_name: "wonderland".to_string() }
}

fn definition() -> AssetDefinitionId {
    AssetDefinitionId { name: "rose".to_string(), domain_name: "wonderland".to_string() }
}

#[test]
fn constructors_carry_their_arguments() {
    let q = FindAccountById::new(account());
    assert_eq!(q.id.name, "alice");
    assert_eq!(q.id.domain_name, "wonderland");

    let q = FindAccountsByName::new(Name { value: "alice".to_string() });
    assert_eq!(q.name.value, "alice");

    let q = FindAccountsByDomainName::new(Name { value: "wonderland".to_string() });
    assert_eq!(q.domain_name.value, "wonderland");

    let q = FindAssetsByAccountId::new(account());
    assert_eq!(q.account_id.name, "alice");

    let q = FindAssetsByAssetDefinitionId::new(definition());
    assert_eq!(q.asset_definition_id.name, "rose");

    let q = FindAssetsByAccountIdAndAssetDefinitionId::new(account(), definition());
    assert_eq!(q.account_id.domain_name, "wonderland");
    assert_eq!(q.asset_definition_id.name, "rose");

    let q = FindAssetQuantityById::new(AssetId {
        definition_id: definition(),
        account_id: account(),
    });
    assert_eq!(q.id.definition_id.domain_name, "wonderland");

    let q = FindDomainByName::new(Name { value: "wonderland".to_string() });
    assert_eq!(q.name.value, "wonderland");

    let peer = PeerId::new("127.0.0.1:1337".to_string(), vec![7u8; 32]);
    let q = FindPeerById::new(peer);
    assert_eq!(q.id.public_key, vec![7u8; 32]);
}

#[test]
fn nullary_constructors_equal_default() {
    assert_eq!(FindAllAccounts::new(), FindAllAccounts::default());
    assert_eq!(FindAllAssets::new(), FindAllAssets::default());
    assert_eq!(FindAllAssetsDefinitions::new(), FindAllAssetsDefinitions::default());
    assert_eq!(FindAllDomains::new(), FindAllDomains::default());
    assert_eq!(FindAllPeers::new(), FindAllPeers::default());
    assert_eq!(FindAllParameters::new(), FindAllParameters::default());
}

#[test]
fn queries_convert_into_the_container() {
    let boxed: QueryBox = FindAccountById::new(account()).into();
    match boxed {
        QueryBox::FindAccountById(q) => assert_eq!(q.id.name, "alice"),
        other => panic!("unexpected variant {:?}", other),
    }
    let boxed = QueryBox::from(FindAssetsByAssetDefinitionId::new(definition()));
    match boxed {
        QueryBox::FindAssetsByAssetDefinitionId(q) => {
            assert_eq!(q.asset_definition_id.name, "rose")
        }
        other => panic!("unexpected variant {:?}", other),
    }
    let boxed: QueryBox = FindAllDomains::new().into();
    assert!(matches!(boxed, QueryBox::FindAllDomains(_)));
    let boxed: QueryBox = FindDomainByName::new(Name { value: "wonderland".to_string() }).into();
    assert!(matches!(boxed, QueryBox::FindDomainByName(_)));
}

#[test]
fn request_digest_covers_query_and_timestamp() {
    let encoded = vec![1u8, 2, 3];
    let stamp = vec![b'9', b'9'];
    let direct = iroha_core::query::request_digest(&encoded, &stamp);
    let manual = iroha_core::hashing::HashValue::new(&vec![1u8, 2, 3, b'9', b'9']);
    assert!(direct.equals(&manual));
    // the timestamp takes part: another stamp, another digest
    let other = iroha_core::query::request_digest(&encoded, &vec![b'9', b'8']);
    assert!(!direct.equals(&other));
}

#[test]
fn queries_box_into_the_container() {
    let boxed = QueryBox::FindAllAccounts(Box::new(FindAllAccounts::new()));
    assert!(matches!(boxed, QueryBox::FindAllAccounts(_)));
    let boxed = QueryBox::FindAllAssets(Box::new(FindAllAssets::new()));
    assert!(matches!(boxed, QueryBox::FindAllAssets(_)));
    let boxed = QueryBox::FindAllAssetsDefinitions(Box::new(FindAllAssetsDefinitions::new()));
    assert!(matches!(boxed, QueryBox::FindAllAssetsDefinitions(_)));
    let boxed = QueryBox::FindAllDomains(Box::new(FindAllDomains::new()));
    assert!(matches!(boxed, QueryBox::FindAllDomains(_)));
    let boxed = QueryBox::FindAllPeers(Box::new(FindAllPeers::new()));
    assert!(matches!(boxed, QueryBox::FindAllPeers(_)));
    let boxed = QueryBox::FindAllParameters(Box::new(FindAllParameters::new()));
    assert!(matches!(boxed, QueryBox::FindAllParameters(_)));
}
