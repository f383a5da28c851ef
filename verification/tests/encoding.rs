use amm_core::abi::{Address, U256};
use amm_core::erc20_mock::{
    AbiError, AllowanceCall, AllowanceReturn, ApproveCall, BalanceOfCall, DecimalsCall,
    DecimalsReturn, ERC20Mock, ERC20MockCalls, ERC20MockEvents, EventKind, MintCall,
    TotalSupplyCall, TransferCall, TransferFilter, TransferFromCall, TransferReturn,
};

fn addr(last: u32) -> Address {
    Address { w0: 0, w1: 0, w2: last }
}

fn word_of_addr(a: Address) -> Vec<u8> {
    let mut w = vec![0u8; 12];
    w.extend_from_slice(&a.w0.to_be_bytes());
    w.extend_from_slice(&a.w1.to_be_bytes());
    w.extend_from_slice(&a.w2.to_be_bytes());
    w
}

fn word_of_u256(v: U256) -> Vec<u8> {
    let mut w = Vec::new();
    w.extend_from_slice(&v.w0.to_be_bytes());
    w.extend_from_slice(&v.w1.to_be_bytes());
    w.extend_from_slice(&v.w2.to_be_bytes());
    w.extend_from_slice(&v.w3.to_be_bytes());
    w
}

#[test]
fn allowance_calldata_is_selector_plus_two_words() {
    let owner = Address { w0: 0x1111111111111111, w1: 0x2222222222222222, w2: 0x33333333 };
    let spender = addr(5);
    let call = ERC20MockCalls::Allowance(AllowanceCall { owner, spender });
    let data = call.encode();
    let mut expected = vec![0xdd, 0x62, 0xed, 0x3e];
    expected.extend_from_slice(&word_of_addr(owner));
    expected.extend_from_slice(&word_of_addr(spender));
    assert_eq!(data, expected);
    assert_eq!(data.len(), 68);
}

#[test]
fn transfer_calldata_layout() {
    let recipient = addr(9);
    let amount = U256::from_u64(1_000_000);
    let call = ERC20MockCalls::Transfer(TransferCall { recipient, amount });
    let data = call.encode();
    let mut expected = vec![0xa9, 0x05, 0x9c, 0xbb];
    expected.extend_from_slice(&word_of_addr(recipient));
    expected.extend_from_slice(&word_of_u256(amount));
    assert_eq!(data, expected);
}

#[test]
fn no_argument_calls_are_bare_selectors() {
    assert_eq!(ERC20MockCalls::Decimals(DecimalsCall).encode(), vec![0x31, 0x3c, 0xe5, 0x67]);
    assert_eq!(
        ERC20MockCalls::TotalSupply(TotalSupplyCall).encode(),
        vec![0x18, 0x16, 0x0d, 0xdd]
    );
}

#[test]
fn decode_inverts_encode() {
    let calls = vec![
        ERC20MockCalls::Allowance(AllowanceCall { owner: addr(1), spender: addr(2) }),
        ERC20MockCalls::Approve(ApproveCall { spender: addr(3), amount: U256::from_u64(7) }),
        ERC20MockCalls::BalanceOf(BalanceOfCall { account: addr(4) }),
        ERC20MockCalls::Decimals(DecimalsCall),
        ERC20MockCalls::Mint(MintCall { to: addr(5), amount: U256::new(1, 2, 3, 4) }),
        ERC20MockCalls::TransferFrom(TransferFromCall {
            sender: addr(6),
            recipient: addr(7),
            amount: U256::from_u64(99),
        }),
    ];
    for call in calls {
        let data = call.encode();
        assert_eq!(ERC20MockCalls::decode(&data), Ok(call));
    }
}

#[test]
fn decode_rejects_unknown_selector() {
    let data = vec![0xde, 0xad, 0xbe, 0xef];
    assert_eq!(ERC20MockCalls::decode(&data), Err(AbiError::InvalidData));
}

#[test]
fn decode_rejects_short_data() {
    assert_eq!(ERC20MockCalls::decode(&vec![]), Err(AbiError::InvalidData));
    assert_eq!(ERC20MockCalls::decode(&vec![0xdd, 0x62]), Err(AbiError::InvalidData));
}

#[test]
fn decode_rejects_wrong_length() {
    // allowance selector with one word instead of two
    let call = ERC20MockCalls::Allowance(AllowanceCall { owner: addr(1), spender: addr(2) });
    let mut data = call.encode();
    data.truncate(36);
    assert_eq!(ERC20MockCalls::decode(&data), Err(AbiError::InvalidData));
}

#[test]
fn decode_rejects_nonzero_address_padding() {
    let call = ERC20MockCalls::BalanceOf(BalanceOfCall { account: addr(1) });
    let mut data = call.encode();
    data[4] = 1;
    assert_eq!(ERC20MockCalls::decode(&data), Err(AbiError::InvalidData));
}

#[test]
fn contract_methods_bind_the_address() {
    let contract = ERC20Mock::new(addr(0xfeed));
    let call = contract.balance_of(addr(12));
    assert_eq!(call.to, addr(0xfeed));
    let mut expected = vec![0x70, 0xa0, 0x82, 0x31];
    expected.extend_from_slice(&word_of_addr(addr(12)));
    assert_eq!(call.data, expected);
    let burn = contract.burn(addr(1), U256::from_u64(5));
    assert_eq!(&burn.data[0..4], &[0x9d, 0xc2, 0x9f, 0xac]);
    let name = contract.name();
    assert_eq!(name.data, vec![0x06, 0xfd, 0xde, 0x03]);
    let symbol = contract.symbol();
    assert_eq!(symbol.data, vec![0x95, 0xd8, 0x9b, 0x41]);
}

#[test]
fn event_filters_carry_kind_and_address() {
    let contract = ERC20Mock::new(addr(77));
    assert_eq!(contract.approval_filter().kind, EventKind::Approval);
    assert_eq!(contract.transfer_filter().kind, EventKind::Transfer);
    assert_eq!(contract.events().kind, EventKind::Any);
    assert_eq!(contract.events().address, addr(77));
}

#[test]
fn events_hold_their_payload() {
    let ev = ERC20MockEvents::TransferFilter(TransferFilter {
        from: addr(1),
        to: addr(2),
        value: U256::from_u64(10),
    });
    match ev {
        ERC20MockEvents::TransferFilter(t) => {
            assert_eq!(t.from, addr(1));
            assert_eq!(t.to, addr(2));
            assert_eq!(t.value, U256::from_u64(10));
        },
        ERC20MockEvents::ApprovalFilter(_) => panic!("wrong variant"),
    }
}

#[test]
fn return_words_decode_exactly() {
    let amount = U256::new(5, 6, 7, 8);
    let decoded = AllowanceReturn::decode(&word_of_u256(amount)).unwrap();
    assert_eq!(decoded.0, amount);

    let mut true_word = vec![0u8; 32];
    true_word[31] = 1;
    assert!(TransferReturn::decode(&true_word).unwrap().0);
    let false_word = vec![0u8; 32];
    assert!(!TransferReturn::decode(&false_word).unwrap().0);
    // a non-canonical boolean is refused
    let mut odd_word = vec![0u8; 32];
    odd_word[31] = 2;
    assert_eq!(TransferReturn::decode(&odd_word), Err(AbiError::InvalidData));
    let mut padded_word = vec![0u8; 32];
    padded_word[0] = 1;
    padded_word[31] = 1;
    assert_eq!(TransferReturn::decode(&padded_word), Err(AbiError::InvalidData));

    let mut decimals_word = vec![0u8; 32];
    decimals_word[31] = 18;
    assert_eq!(DecimalsReturn::decode(&decimals_word).unwrap().0, 18);

    // only a whole word decodes
    assert_eq!(DecimalsReturn::decode(&vec![0u8; 31]), Err(AbiError::InvalidData));
}
