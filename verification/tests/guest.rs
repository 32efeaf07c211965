use contract_engine::deploy::{deploy_contract, deployment_of, DeployError};
use contract_engine::entry::{entry_return, pack_return, unpack_return, ENTRY_FAILURE};
use contract_engine::guest::{
    check_get, check_set, first_result, get_root, is_uniform, pack, read_results, read_storage_json, reads,
    root_key, set_root, verify_commit_reveal, write_storage_json, writes, HostLibError, Pointer,
    ReadRequest, Table, WriteRequest, ADDRESS_LEN, VALUE_CAPACITY,
};
use contract_engine::hashing::{content_hash, to_hex, HASH_LEN};
use contract_engine::store::ContractSetArg;

const EMPTY_HASH: &str = "af1349b9f5f9a1a6a0404dea36dcc9499bcb25c9adc112b7cc9a93cae41f3262";

#[test]
fn hex_is_lowercase_two_digits_per_byte() {
    assert_eq!(to_hex(&[1, 2, 3, 15, 16]), "0102030f10");
    assert_eq!(to_hex(&[]), "");
    assert_eq!(to_hex(&[0xde, 0xad, 0xbe, 0xef]), "deadbeef");
    assert_eq!(to_hex(b"Hello world!"), "48656c6c6f20776f726c6421");
}

#[test]
fn content_hash_is_blake3() {
    assert_eq!(HASH_LEN, 32);
    assert_eq!(content_hash(b"").len(), 32);
    assert_eq!(to_hex(&content_hash(b"")), EMPTY_HASH);
    assert_eq!(content_hash(b"abc"), blake3::hash(b"abc").as_bytes().to_vec());
    assert_ne!(content_hash(b"abc"), content_hash(b"abd"));
}

#[test]
fn deploying_nothing_is_refused() {
    assert_eq!(deploy_contract(Vec::new()), Err(DeployError::EmptyBody));
}

#[test]
fn bytecode_is_stored_under_its_own_hash() {
    let body = b"\0asm\x01\0\0\0".to_vec();
    let hash = blake3::hash(&body).as_bytes().to_vec();
    let deployment = deploy_contract(body.clone()).unwrap();
    assert_eq!(
        deployment.record,
        ContractSetArg {
            is_contract: true,
            in_contract: hash.clone(),
            at_address: hash.clone(),
            data: body,
            version: None,
        }
    );
    assert_eq!(deployment.contract_hash, hex::encode(&hash));
    assert_eq!(deployment.contract_hash.len(), 64);
}

#[test]
fn a_deployment_names_its_address_in_hex() {
    let deployment = deployment_of(vec![9, 9], vec![0xab, 0x01]);
    assert_eq!(
        deployment.record,
        ContractSetArg {
            is_contract: true,
            in_contract: vec![0xab, 0x01],
            at_address: vec![0xab, 0x01],
            data: vec![9, 9],
            version: None,
        }
    );
    assert_eq!(deployment.contract_hash, "ab01");
}

#[test]
fn deploying_the_same_bytecode_twice_gives_the_same_address() {
    let first = deploy_contract(vec![1, 2, 3]).unwrap();
    let second = deploy_contract(vec![1, 2, 3]).unwrap();
    assert_eq!(first.contract_hash, second.contract_hash);
    assert_eq!(first.record, second.record);
    let other = deploy_contract(vec![1, 2, 4]).unwrap();
    assert_ne!(first.contract_hash, other.contract_hash);
}

#[test]
fn entry_words_pack_pointer_and_length() {
    assert_eq!(pack_return(1, 2), 0x0000_0001_0000_0002);
    assert_eq!(pack_return(0xdead_beef, 0x10), 0xdead_beef_0000_0010);
    assert_eq!(pack_return(u32::MAX, 0xffff_ffff), u64::MAX);
    assert_eq!(pack_return(0, 5), 5);
    assert_eq!(pack_return(7, 0x1_0000_0003), 0x0000_0007_0000_0003);
    assert_eq!(entry_return(Some((3, 4))), 0x0000_0003_0000_0004);
    assert_eq!(entry_return(None), 0);
    assert_eq!(ENTRY_FAILURE, 0);
}

#[test]
fn entry_words_read_back() {
    assert_eq!(unpack_return(0), None);
    assert_eq!(unpack_return(0x0000_0001_0000_0002), Some((1, 2)));
    assert_eq!(unpack_return(u64::MAX), Some((u32::MAX, u32::MAX)));
    assert_eq!(unpack_return(5), Some((0, 5)));
    assert_eq!(unpack_return(0x0000_0009_0000_0000), Some((9, 0)));
    let word = pack_return(0x1000, 77);
    assert_eq!(unpack_return(word), Some((0x1000, 77)));
    assert_eq!(word >> 32, 0x1000);
    assert_eq!(word & 0xffff_ffff, 77);
}

#[test]
fn keys_of_one_length_are_uniform() {
    assert!(is_uniform(&Vec::new()));
    assert!(is_uniform(&vec![vec![1, 2]]));
    assert!(is_uniform(&vec![vec![1, 2], vec![3, 4], vec![]].into_iter().take(2).collect()));
    assert!(!is_uniform(&vec![vec![1, 2], vec![3]]));
    assert!(!is_uniform(&vec![vec![], vec![], vec![0]]));
}

#[test]
fn keys_are_packed_end_to_end() {
    assert_eq!(pack(&vec![vec![1, 2], vec![3, 4], vec![5, 6]]), vec![1, 2, 3, 4, 5, 6]);
    assert_eq!(pack(&Vec::new()), Vec::<u8>::new());
}

#[test]
fn reading_no_keys_needs_no_call() {
    assert_eq!(reads(&Vec::new()), None);
    assert_eq!(writes(&Vec::new(), &Vec::new()), None);
    assert_eq!(writes(&Vec::new(), &vec![vec![1]]), None);
}

#[test]
fn a_batched_read_reserves_a_kilobyte_per_key() {
    assert_eq!(VALUE_CAPACITY, 1024);
    let request = reads(&vec![vec![1; 4], vec![2; 4], vec![3; 4]]).unwrap();
    assert_eq!(
        request,
        ReadRequest {
            keys_buf: vec![1, 1, 1, 1, 2, 2, 2, 2, 3, 3, 3, 3],
            data_buf_len: 3072,
            num_keys: 3,
        }
    );
}

#[test]
fn a_batched_write_carries_the_length_of_each_value() {
    let request =
        writes(&vec![vec![1; 2], vec![2; 2]], &vec![b"{\"a\":1}".to_vec(), b"42".to_vec()])
            .unwrap();
    assert_eq!(
        request,
        WriteRequest {
            keys_buf: vec![1, 1, 2, 2],
            vals_buf: b"{\"a\":1}42".to_vec(),
            lengths: vec![7, 2],
        }
    );
}

#[test]
fn results_are_cut_by_the_reported_lengths() {
    let mut data = b"123\"ab\"true".to_vec();
    data.resize(3 * 1024, 0);
    let values = read_results(&data, &vec![3, 0, 4, 4]).unwrap();
    assert_eq!(
        values,
        vec![Some(b"123".to_vec()), None, Some(b"\"ab\"".to_vec()), Some(b"true".to_vec())]
    );
    assert_eq!(read_results(&data, &Vec::new()), Ok(Vec::new()));
    assert_eq!(read_results(&Vec::new(), &vec![0, 0]), Ok(vec![None, None]));
}

#[test]
fn lengths_past_the_buffer_are_an_error() {
    assert_eq!(read_results(&vec![1, 2, 3], &vec![2, 2]), Err(HostLibError::BufferTooSmall));
    assert_eq!(read_results(&vec![1, 2, 3], &vec![4]), Err(HostLibError::BufferTooSmall));
    assert_eq!(
        read_results(&vec![1, 2, 3], &vec![u32::MAX, u32::MAX]),
        Err(HostLibError::BufferTooSmall)
    );
    assert_eq!(
        read_results(&vec![1, 2, 3], &vec![1, 2]),
        Ok(vec![Some(vec![1]), Some(vec![2, 3])])
    );
}

#[test]
fn a_single_read_takes_the_first_result() {
    assert_eq!(first_result(vec![Some(vec![1]), None]), Some(vec![1]));
    assert_eq!(first_result(vec![None, Some(vec![1])]), None);
    assert_eq!(first_result(Vec::new()), None);
}

#[test]
fn host_statuses_are_checked() {
    assert_eq!(check_get(0), Ok(()));
    assert_eq!(check_get(-3), Err(HostLibError::HostGetError(-3)));
    assert_eq!(check_set(0), Ok(()));
    assert_eq!(check_set(1), Err(HostLibError::HostSetError(1)));
}

#[test]
fn single_keys_are_batches_of_one() {
    assert_eq!(
        read_storage_json(&[9, 8, 7]),
        ReadRequest { keys_buf: vec![9, 8, 7], data_buf_len: 1024, num_keys: 1 }
    );
    assert_eq!(
        write_storage_json(&[9, 8, 7], b"null".to_vec()),
        WriteRequest { keys_buf: vec![9, 8, 7], vals_buf: b"null".to_vec(), lengths: vec![4] }
    );
}

#[test]
fn the_root_lives_at_the_zero_address() {
    assert_eq!(root_key(), vec![0u8; 32]);
    assert_eq!(
        get_root(),
        ReadRequest { keys_buf: vec![0; 32], data_buf_len: 1024, num_keys: 1 }
    );
    assert_eq!(
        set_root(b"{}".to_vec()),
        WriteRequest { keys_buf: vec![0; 32], vals_buf: b"{}".to_vec(), lengths: vec![2] }
    );
}

#[test]
fn a_pointer_is_its_address() {
    assert_eq!(ADDRESS_LEN, 32);
    let given = Pointer::new(Some(vec![5; 32]), vec![6; 32]);
    assert_eq!(given.ptr(), vec![5; 32]);
    let fresh = Pointer::new(None, vec![6; 32]);
    assert_eq!(fresh.ptr(), vec![6; 32]);
    assert_eq!(
        given.get(),
        ReadRequest { keys_buf: vec![5; 32], data_buf_len: 1024, num_keys: 1 }
    );
    assert_eq!(
        fresh.set(b"7".to_vec()),
        WriteRequest { keys_buf: vec![6; 32], vals_buf: b"7".to_vec(), lengths: vec![1] }
    );
}

#[test]
fn table_addresses_hash_the_name_and_the_key() {
    let table = Table::new("users".to_string());
    let expected = blake3::hash(b"[\"users\",\"alice\"]").as_bytes().to_vec();
    assert_eq!(table.storage_key("\"alice\""), Some(expected.clone()));
    assert_eq!(table.get("\"alice\"").unwrap().ptr(), expected);
    let compound = blake3::hash(b"[\"users\",[[1,2],7]]").as_bytes().to_vec();
    assert_eq!(table.storage_key("[[1,2],7]"), Some(compound));
}

#[test]
fn table_addresses_are_deterministic() {
    let one = Table::new("sessions".to_string());
    let other = Table::new("sessions".to_string());
    assert_eq!(one.storage_key("42"), other.storage_key("42"));
    assert_eq!(one.storage_key("42"), one.storage_key("42"));
    assert_ne!(one.storage_key("42"), one.storage_key("43"));
    let elsewhere = Table::new("session_record".to_string());
    assert_ne!(one.storage_key("42"), elsewhere.storage_key("42"));
    assert_eq!(one.storage_key("42").unwrap().len(), 32);
}

#[test]
fn table_names_are_escaped_as_json() {
    let table = Table::new("a\"b".to_string());
    let expected = blake3::hash(b"[\"a\\\"b\",1]").as_bytes().to_vec();
    assert_eq!(table.storage_key("1"), Some(expected));
}

#[test]
fn a_key_that_is_not_json_has_no_address() {
    let table = Table::new("users".to_string());
    assert_eq!(table.storage_key("alice"), None);
    assert_eq!(table.storage_key(""), None);
    assert_eq!(table.storage_key("1 2"), None);
    assert_eq!(table.get("{"), None);
    assert_eq!(table.set("{", b"1".to_vec()), None);
}

#[test]
fn a_table_write_goes_to_the_entry_address() {
    let table = Table::new("users".to_string());
    let address = table.storage_key("\"bob\"").unwrap();
    assert_eq!(
        table.set("\"bob\"", b"{\"age\":3}".to_vec()),
        Some(WriteRequest {
            keys_buf: address,
            vals_buf: b"{\"age\":3}".to_vec(),
            lengths: vec![9],
        })
    );
}

#[test]
fn a_commit_is_the_hash_of_the_reveal() {
    let reveal = b"[\"ROCK\",[1,2,3]]";
    let commit = blake3::hash(reveal).as_bytes().to_vec();
    assert!(verify_commit_reveal(commit.clone(), reveal));
    assert!(!verify_commit_reveal(commit.clone(), b"[\"PAPER\",[1,2,3]]"));
    assert!(!verify_commit_reveal(commit[..31].to_vec(), reveal));
    assert!(!verify_commit_reveal(Vec::new(), reveal));
}
