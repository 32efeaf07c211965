use contract_engine::host_abi::{
    encode_length, encode_word, gets_reply, guest_buffer, merge_set_args, parse_key_pairs,
    rand_reply, rand_writes, sets_arguments, MemoryRead, MemoryWrite, HOST_OK, RANDOM_LEN,
};
use contract_engine::store::ContractSetArg;

fn arg(data: &[u8], version: Option<i64>) -> ContractSetArg {
    ContractSetArg {
        is_contract: true,
        in_contract: b"claimed".to_vec(),
        at_address: b"claimed".to_vec(),
        data: data.to_vec(),
        version,
    }
}

#[test]
fn words_are_little_endian() {
    assert_eq!(encode_word(0), vec![0, 0, 0, 0]);
    assert_eq!(encode_word(32), vec![32, 0, 0, 0]);
    assert_eq!(encode_word(0x0102_0304), vec![4, 3, 2, 1]);
    assert_eq!(encode_word(u32::MAX), vec![255, 255, 255, 255]);
    assert_eq!(encode_word(0x0102_0304), 0x0102_0304u32.to_le_bytes().to_vec());
}

#[test]
fn lengths_keep_their_low_word() {
    assert_eq!(encode_length(0), vec![0, 0, 0, 0]);
    assert_eq!(encode_length(300), vec![44, 1, 0, 0]);
    assert_eq!(encode_length(0xffff_ffff), vec![255, 255, 255, 255]);
    assert_eq!(encode_length(0x1_0000_0005), vec![5, 0, 0, 0]);
}

#[test]
fn host_calls_succeed_with_zero() {
    assert_eq!(HOST_OK, 0);
    assert_eq!(RANDOM_LEN, 32);
}

#[test]
fn rand_hands_out_32_bytes_and_their_length() {
    let writes = rand_reply(100, 200);
    assert_eq!(writes.len(), 2);
    assert_eq!(writes[0].offset, 100);
    assert_eq!(writes[0].bytes.len(), 32);
    assert_eq!(writes[1], MemoryWrite { offset: 200, bytes: vec![32, 0, 0, 0] });
}

#[test]
fn rand_draws_afresh() {
    let first = rand_reply(0, 0);
    let second = rand_reply(0, 0);
    assert_ne!(first[0].bytes, second[0].bytes);
    assert_ne!(first[0].bytes, vec![0u8; 32]);
}

#[test]
fn rand_writes_what_was_drawn() {
    let writes = rand_writes(8, 4, vec![7; 32]);
    assert_eq!(
        writes,
        vec![
            MemoryWrite { offset: 8, bytes: vec![7; 32] },
            MemoryWrite { offset: 4, bytes: vec![32, 0, 0, 0] },
        ]
    );
}

#[test]
fn guest_buffers_are_regions() {
    assert_eq!(guest_buffer(16, 64), MemoryRead { offset: 16, len: 64 });
    assert_eq!(
        guest_buffer(u32::MAX, u32::MAX),
        MemoryRead { offset: 4294967295, len: 4294967295 }
    );
}

#[test]
fn key_pairs_are_parsed_from_json() {
    let pairs = parse_key_pairs(b"[[[1,2],[3]],[[],[255,0]]]");
    assert_eq!(pairs, vec![(vec![1, 2], vec![3]), (vec![], vec![255, 0])]);
    assert_eq!(parse_key_pairs(b"[]"), Vec::new());
    assert_eq!(parse_key_pairs(b" [ [ [7] , [8] ] ] "), vec![(vec![7], vec![8])]);
}

#[test]
fn unparseable_keys_are_an_empty_list() {
    assert_eq!(parse_key_pairs(b"not json"), Vec::new());
    assert_eq!(parse_key_pairs(b""), Vec::new());
    assert_eq!(parse_key_pairs(b"[[[1],[2],[3]]]"), Vec::new());
    assert_eq!(parse_key_pairs(b"[[[256],[2]]]"), Vec::new());
    assert_eq!(parse_key_pairs(b"{\"a\":1}"), Vec::new());
    assert_eq!(parse_key_pairs(b"[[[1],[2]]] trailing"), Vec::new());
}

#[test]
fn gets_writes_the_json_and_its_length() {
    let json = b"[null,{\"is_contract\":false}]".to_vec();
    let writes = gets_reply(1024, 2048, json.clone());
    assert_eq!(
        writes,
        vec![
            MemoryWrite { offset: 1024, bytes: json },
            MemoryWrite { offset: 2048, bytes: vec![28, 0, 0, 0] },
        ]
    );
}

#[test]
fn keys_override_what_the_values_claim() {
    let pairs = vec![(b"ns".to_vec(), b"addr".to_vec())];
    let merged = merge_set_args(&pairs, &vec![arg(b"data", Some(3))]);
    assert_eq!(
        merged,
        vec![ContractSetArg {
            is_contract: true,
            in_contract: b"ns".to_vec(),
            at_address: b"addr".to_vec(),
            data: b"data".to_vec(),
            version: Some(3),
        }]
    );
}

// A value list that is one shorter than the key list: the missing entry is
// made up as an empty placeholder, and the call goes on.
#[test]
fn a_missing_value_becomes_an_empty_placeholder() {
    let pairs = vec![(b"ns".to_vec(), b"a".to_vec()), (b"ns".to_vec(), b"b".to_vec())];
    let merged = merge_set_args(&pairs, &vec![arg(b"first", None)]);
    assert_eq!(
        merged,
        vec![
            ContractSetArg {
                is_contract: true,
                in_contract: b"ns".to_vec(),
                at_address: b"a".to_vec(),
                data: b"first".to_vec(),
                version: None,
            },
            ContractSetArg {
                is_contract: false,
                in_contract: b"ns".to_vec(),
                at_address: b"b".to_vec(),
                data: vec![],
                version: None,
            },
        ]
    );
}

#[test]
fn a_missing_key_becomes_the_empty_key() {
    let pairs = vec![(b"ns".to_vec(), b"a".to_vec())];
    let merged = merge_set_args(&pairs, &vec![arg(b"one", Some(1)), arg(b"two", Some(2))]);
    assert_eq!(merged.len(), 2);
    assert_eq!(
        merged[1],
        ContractSetArg {
            is_contract: true,
            in_contract: vec![],
            at_address: vec![],
            data: b"two".to_vec(),
            version: Some(2),
        }
    );
    assert_eq!(merge_set_args(&Vec::new(), &Vec::new()), Vec::new());
}

#[test]
fn sets_reads_its_keys_from_the_buffer() {
    let merged = sets_arguments(b"[[[1],[2]],[[3],[4]]]", &vec![arg(b"v", None)]);
    assert_eq!(merged.len(), 2);
    assert_eq!(merged[0].in_contract, vec![1]);
    assert_eq!(merged[0].at_address, vec![2]);
    assert_eq!(merged[0].data, b"v".to_vec());
    assert_eq!(merged[1].in_contract, vec![3]);
    assert_eq!(merged[1].at_address, vec![4]);
    assert!(!merged[1].is_contract);
    let unkeyed = sets_arguments(b"garbage", &vec![arg(b"v", None)]);
    assert_eq!(unkeyed.len(), 1);
    assert_eq!(unkeyed[0].in_contract, Vec::<u8>::new());
}
