use darkpool::Address;
use soroban_sdk::{Bytes, Env};

const ACCOUNT: &str = "GAAAAAAAAAAAAAAAAAAAAAAAAAAAAAAAAAAAAAAAAAAAAAAAAAAAAWHF";
const CONTRACT: &str = "CAAAAAAAAAAAAAAAAAAAAAAAAAAAAAAAAAAAAAAAAAAAAAAAAAAABSC4";
const OTHER_ACCOUNT: &str = "GAAQCAIBAEAQCAIBAEAQCAIBAEAQCAIBAEAQCAIBAEAQCAIBAEAQDZ7H";

fn plain(address: &soroban_sdk::Address) -> Address {
    let mut strkey = [0u8; 56];
    address.to_string().copy_into_slice(&mut strkey);
    Address { strkey }
}

#[test]
fn host_addresses_are_told_apart_by_their_strkey() {
    let env = Env::default();
    let account = soroban_sdk::Address::from_str(&env, ACCOUNT);
    let contract = soroban_sdk::Address::from_str(&env, CONTRACT);
    let account_again = soroban_sdk::Address::from_str(&env, ACCOUNT);

    assert_eq!(&plain(&account).strkey[..], ACCOUNT.as_bytes());
    assert_eq!(&plain(&contract).strkey[..], CONTRACT.as_bytes());

    assert_eq!(account == account_again, plain(&account).same(&plain(&account_again)));
    assert_eq!(account == contract, plain(&account).same(&plain(&contract)));
    assert!(plain(&account).same(&plain(&account_again)));
    assert!(!plain(&account).same(&plain(&contract)));

    let other = soroban_sdk::Address::from_str(&env, OTHER_ACCOUNT);
    assert_eq!(account == other, plain(&account).same(&plain(&other)));
    assert!(!plain(&account).same(&plain(&other)));
}

#[test]
fn plain_address_goes_back_to_the_host() {
    let env = Env::default();
    let account = soroban_sdk::Address::from_str(&env, ACCOUNT);
    let back = soroban_sdk::Address::from_string_bytes(&Bytes::from_array(
        &env,
        &plain(&account).strkey,
    ));
    assert_eq!(back, account);
}
