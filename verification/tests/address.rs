use chia_vanity::address::{derive_address, first_match, matches_any, ADDRESS_PREFIX};
use chia_vanity::bls::{PublicKey, SecretKey};
use chia_vanity::Key;

fn wallet() -> PublicKey {
    master().wallet_intermediate()
}

fn master() -> PublicKey {
    let bytes: [u8; 32] =
        hex::decode("6bb19282e27bc6e7e397fb19efc2627a412410fdfd13bf14f4ce5bfdce084c71")
            .unwrap()
            .as_slice()
            .try_into()
            .unwrap();
    SecretKey::from_bytes(bytes).unwrap().public_key()
}

fn list(items: &[&str]) -> Vec<String> {
    items.iter().map(|s| s.to_string()).collect()
}

fn tail(text: &str, count: usize) -> String {
    text[text.len() - count..].to_string()
}

#[test]
fn addresses_of_a_known_key() {
    let wallet = wallet();
    assert_eq!(
        derive_address(&wallet, 0),
        "xch19qpzw7e9w0syneclxrtajy5zr6atzvza944l8fehqrq9034kse8sqtj57e"
    );
    assert_eq!(
        derive_address(&wallet, 1),
        "xch174yekvn08c4vgz9jnek7h082nme78ams8y4ydw2tl5hfseu08ejq0xjr5q"
    );
    assert_eq!(
        derive_address(&wallet, 2),
        "xch18gfcvxpsymaty6fyw3mw4fdvrzm25rs5ykj7zaljfalperpu69vsylkswv"
    );
    assert_eq!(
        derive_address(&wallet, 3),
        "xch1t9834k48aqvnsxz2zcvjlf4yamwexcuken85gpez08qk43nv00rsxl9tuk"
    );
}

#[test]
fn address_is_made_in_four_steps() {
    let wallet = wallet();
    let outside = chia_bls::PublicKey::from_bytes(&master().to_bytes()).unwrap();
    for index in [0u32, 5, 499, u32::MAX] {
        let child = chia_bls::derive_keys::master_to_wallet_unhardened(&outside, index);
        let synthetic = chia_wallet::DeriveSynthetic::derive_synthetic(
            &child,
            &chia_wallet::standard::DEFAULT_HIDDEN_PUZZLE_HASH,
        );
        let hash = chia_wallet::standard::standard_puzzle_hash(&synthetic);
        let expected =
            bech32::encode("xch", bech32::ToBase32::to_base32(&hash), bech32::Variant::Bech32m)
                .unwrap();
        assert_eq!(derive_address(&wallet, index), expected);
    }
}

#[test]
fn address_encodes_the_puzzle_hash_of_the_synthetic_key() {
    // The synthetic key of the wallet key at index 0 under the master key.
    let synthetic: [u8; 48] = hex::decode(
        "b0c8cf08fdbe7fdb7bb1795740153b944c32364b100c372a05833554cb97794563b096cb5f57bfa09f38d7aebb48704e",
    )
    .unwrap()
    .as_slice()
    .try_into()
    .unwrap();
    let key = chia_bls::PublicKey::from_bytes(&synthetic).unwrap();
    let hash = chia_wallet::standard::standard_puzzle_hash(&key);
    let (hrp, data, variant) = bech32::decode(&derive_address(&wallet(), 0)).unwrap();
    assert_eq!(hrp, ADDRESS_PREFIX);
    assert_eq!(variant, bech32::Variant::Bech32m);
    let payload: Vec<u8> = bech32::FromBase32::from_base32(&data).unwrap();
    assert_eq!(payload, hash.to_vec());
}

#[test]
fn hidden_puzzle_hash_is_the_default_one() {
    assert_eq!(
        hex::encode(chia_wallet::standard::DEFAULT_HIDDEN_PUZZLE_HASH),
        "711d6c4e32c92e53179b199484cf8c897542bc57f2b22582799f9d657eec4699"
    );
}

#[test]
fn address_has_the_network_prefix_and_sixty_two_characters() {
    assert_eq!(ADDRESS_PREFIX, "xch");
    let address = derive_address(&wallet(), 42);
    assert!(address.starts_with("xch1"));
    assert_eq!(address.len(), 62);
    assert_eq!(address, address.to_lowercase());
}

#[test]
fn same_key_and_index_give_the_same_address() {
    let first = wallet();
    let second = PublicKey::from_bytes(first.to_bytes()).unwrap();
    for index in [0u32, 3, 7, 250] {
        let address = derive_address(&first, index);
        assert_eq!(derive_address(&first, index), address);
        assert_eq!(derive_address(&second, index), address);
    }
    assert_ne!(derive_address(&first, 3), derive_address(&first, 7));
}

#[test]
fn matches_any_tests_suffixes_only() {
    let address = "xch19qpzw7e9w0syneclxrtajy5zr6atzvza944l8fehqrq9034kse8sqtj57e";
    assert!(matches_any(address, &list(&["57e"])));
    assert!(matches_any(address, &list(&["zzz", "j57e"])));
    assert!(matches_any(address, &list(&[address])));
    assert!(matches_any(address, &list(&[""])));
    assert!(!matches_any(address, &list(&["xch1"])));
    assert!(!matches_any(address, &list(&["57", "tj57"])));
    assert!(!matches_any(address, &list(&["57E"])));
    assert!(!matches_any(address, &list(&[])));
    assert!(!matches_any("e", &list(&["57e"])));
}

#[test]
fn lowest_matching_index_wins() {
    let wallet = wallet();
    let third = derive_address(&wallet, 3);
    let seventh = derive_address(&wallet, 7);
    let desired = vec![tail(&seventh, 6), tail(&third, 6)];
    assert_eq!(first_match(&wallet, &desired, 500), Some((third.clone(), 3)));
    assert_eq!(first_match(&wallet, &desired, 4), Some((third, 3)));
    assert_eq!(first_match(&wallet, &desired, 3), None);
    let only_seventh = vec![tail(&seventh, 6)];
    assert_eq!(first_match(&wallet, &only_seventh, 500), Some((seventh.clone(), 7)));
    assert_eq!(first_match(&wallet, &only_seventh, 8), Some((seventh, 7)));
    assert_eq!(first_match(&wallet, &only_seventh, 7), None);
}

#[test]
fn no_index_is_searched_below_a_limit_of_zero() {
    assert_eq!(first_match(&wallet(), &list(&[""]), 0), None);
    let first = derive_address(&wallet(), 0);
    assert_eq!(first_match(&wallet(), &list(&[""]), 1), Some((first, 0)));
}

#[test]
fn empty_list_of_suffixes_matches_nothing() {
    assert_eq!(first_match(&wallet(), &list(&[]), 20), None);
}

#[test]
fn vanity_address_of_a_key() {
    let key = Key::from_entropy(&[0u8; 32]);
    let found = key.vanity_address(&list(&["q"]), &500);
    assert_eq!(
        found,
        Some(("xch1jwu3d0ytngzpk37mhj7ktahfwv3n5ws0sd0qnx52xrn092v2gq0qxvfrqq".to_string(), 34))
    );
    assert_eq!(key.vanity_address(&list(&["q"]), &34), None);
    assert_eq!(key.vanity_address(&list(&["xch"]), &100), None);
    let (address, index) = found.unwrap();
    assert_eq!(derive_address(&key.wallet(), index), address);
}

#[test]
fn vanity_address_accepts_any_of_the_variants() {
    let key = Key::from_entropy(&[0u8; 32]);
    let at_five = derive_address(&key.wallet(), 5);
    let desired = chia_vanity::generate_variants("os")
        .into_iter()
        .chain(std::iter::once(tail(&at_five, 5)))
        .collect::<Vec<String>>();
    let (address, index) = key.vanity_address(&desired, &500).unwrap();
    assert!(index <= 5);
    assert!(desired.iter().any(|suffix| address.ends_with(suffix.as_str())));
    for earlier in 0..index {
        let other = derive_address(&key.wallet(), earlier);
        assert!(!desired.iter().any(|suffix| other.ends_with(suffix.as_str())));
    }
}

#[test]
fn search_for_xch_ends_with_xch_below_five_hundred() {
    let mut entropy = [0u8; 32];
    entropy[3] = 13;
    let key = Key::from_entropy(&entropy);
    let desired = vec!["xch".to_string()];
    let (address, index) = key.vanity_address(&desired, &500).unwrap();
    assert!(address.ends_with("xch"));
    assert!(index < 500);
    assert_eq!(address, "xch19223f4v40rrkl5suazjunqej3rl2xlekmu8hcq5sxrydp8v77nlqq09xch");
    assert_eq!(index, 208);
}

#[test]
fn export_has_three_labelled_lines() {
    let key = Key::from_entropy(&[0u8; 32]);
    let export = key.export(&"xch1test".to_string());
    assert_eq!(export.file_name, "1532878573.txt");
    assert_eq!(
        export.contents,
        "Master Public Key:   827af93158c0542a234c76fcdfd54766dc39405b259c25f6fc90ca47fb0c73a8f5c745a4489b0a0ed7662044021bac53\n\
         Wallet Observer Key: aa436e8da51636bd52ba2ef2ca02d38b10f8280a42e8285e9e4cc2768bda50d2997fb04042d6c23e5bd12d521d908253\n\
         Address:             xch1test\n"
    );
}

#[test]
fn export_is_named_by_the_fingerprint() {
    let mut entropy = [0u8; 32];
    entropy[3] = 13;
    let key = Key::from_entropy(&entropy);
    let export = key.export(&String::new());
    assert_eq!(export.file_name, format!("{}.txt", key.public_key().get_fingerprint()));
    let lines: Vec<&str> = export.contents.split('\n').collect();
    assert_eq!(lines.len(), 4);
    assert_eq!(
        lines[0],
        format!("Master Public Key:   {}", hex::encode(key.public_key().to_bytes()))
    );
    assert_eq!(
        lines[1],
        format!("Wallet Observer Key: {}", hex::encode(key.wallet().to_bytes()))
    );
    assert_eq!(lines[2], "Address:             ");
    assert_eq!(lines[3], "");
}
